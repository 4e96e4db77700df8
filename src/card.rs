use vstd::prelude::*;

use crate::effect::{
    Effect, EffectType, StateEffect, after_hit, amplifies, can_react, damage_after,
};

verus! {

/// Width of a card on screen, border included.
pub const CARD_WIDTH: u16 = 20;

/// Height of a card on screen, border included.
pub const CARD_HEIGHT: u16 = 10;

/// The lines that textwrap breaks `text` into at `width` columns.
pub uninterp spec fn wrapped_lines(text: Seq<char>, width: usize) -> Seq<Seq<char>>;

/// What each line holds.
pub open spec fn line_views(lines: Seq<String>) -> Seq<Seq<char>> {
    lines.map_values(|line: String| line@)
}

/// Relies on `textwrap::wrap`: it breaks `text` into lines of at most `width`
/// columns, and the lines depend on the text and the width alone.
#[verifier::external_body]
fn wrap_text(text: &str, width: usize) -> (r: Vec<String>)
    ensures
        line_views(r@) == wrapped_lines(text@, width),
{
    textwrap::wrap(text, width).into_iter().map(|line| line.into_owned()).collect()
}

/// What a card is, as the contracts see it.
pub ghost struct CardView {
    pub name: Seq<char>,
    pub health: int,
    pub health_overload: int,
    pub max_health: int,
    pub base_damage: int,
    pub added_damage: int,
    pub description: Seq<char>,
    pub effects: Seq<Effect>,
    pub state_effects: Seq<StateEffect>,
}

/// No two effects share a kind.
pub open spec fn kinds_unique(effects: Seq<Effect>) -> bool {
    forall|i: int, j: int|
        0 <= i < j < effects.len() ==> #[trigger] effects[i].effect_type
            != #[trigger] effects[j].effect_type
}

pub open spec fn has_kind(effects: Seq<Effect>, kind: EffectType) -> bool {
    exists|i: int| 0 <= i < effects.len() && #[trigger] effects[i].effect_type == kind
}

/// `i` is the position of the first effect of kind `kind`.
pub open spec fn is_first_of_kind(effects: Seq<Effect>, kind: EffectType, i: int) -> bool {
    &&& 0 <= i < effects.len()
    &&& effects[i].effect_type == kind
    &&& forall|j: int| 0 <= j < i ==> #[trigger] effects[j].effect_type != kind
}

/// `i` is the position of the one effect of kind `kind`.
pub open spec fn is_only_of_kind(effects: Seq<Effect>, kind: EffectType, i: int) -> bool {
    &&& 0 <= i < effects.len()
    &&& effects[i].effect_type == kind
    &&& forall|j: int| 0 <= j < effects.len() && #[trigger] effects[j].effect_type == kind ==> j == i
}

/// The stack of the effect of kind `kind`, or 0 where there is none.
pub open spec fn stack_of(effects: Seq<Effect>, kind: EffectType) -> int {
    if exists|i: int| is_first_of_kind(effects, kind, i) {
        effects[choose|i: int| is_first_of_kind(effects, kind, i)].stack as int
    } else {
        0
    }
}

/// The effects after `amount` has been applied for kind `kind`: added to the
/// stack of the entry of that kind, or appended as a new entry.
pub open spec fn effects_after_apply(effects: Seq<Effect>, kind: EffectType, amount: int) -> Seq<
    Effect,
> {
    if exists|i: int| is_first_of_kind(effects, kind, i) {
        let i = choose|i: int| is_first_of_kind(effects, kind, i);
        effects.update(i, Effect { stack: (effects[i].stack + amount) as i32, effect_type: kind })
    } else {
        effects.push(Effect { stack: amount as i32, effect_type: kind })
    }
}

/// The effects after each amount of `amounts` has been applied for `kind`, in order.
pub open spec fn effects_after_applying_all(
    effects: Seq<Effect>,
    kind: EffectType,
    amounts: Seq<i32>,
) -> Seq<Effect>
    decreases amounts.len(),
{
    if amounts.len() == 0 {
        effects
    } else {
        effects_after_apply(
            effects_after_applying_all(effects, kind, amounts.drop_last()),
            kind,
            amounts.last() as int,
        )
    }
}

pub open spec fn total(amounts: Seq<i32>) -> int
    decreases amounts.len(),
{
    if amounts.len() == 0 {
        0
    } else {
        total(amounts.drop_last()) + amounts.last()
    }
}

/// The damage left after every effect has reacted to it, in order.
pub open spec fn damage_through(effects: Seq<Effect>, amount: int, from_effect: bool) -> int
    decreases effects.len(),
{
    if effects.len() == 0 {
        amount
    } else {
        damage_after(
            effects.last(),
            damage_through(effects.drop_last(), amount, from_effect),
            from_effect,
        )
    }
}

/// The effects after each has reacted to a hit.
pub open spec fn effects_after_hit(effects: Seq<Effect>, from_effect: bool) -> Seq<Effect> {
    effects.map_values(|e: Effect| after_hit(e, from_effect))
}

/// The effects whose stack is still positive, in their order.
pub open spec fn live_effects(effects: Seq<Effect>) -> Seq<Effect> {
    effects.filter(|e: Effect| e.stack > 0)
}

pub open spec fn damage_bonus_total(mods: Seq<StateEffect>) -> int
    decreases mods.len(),
{
    if mods.len() == 0 {
        0
    } else {
        damage_bonus_total(mods.drop_last()) + mods.last().damage_bonus()
    }
}

pub open spec fn health_bonus_total(mods: Seq<StateEffect>) -> int
    decreases mods.len(),
{
    if mods.len() == 0 {
        0
    } else {
        health_bonus_total(mods.drop_last()) + mods.last().health_bonus()
    }
}

pub open spec fn fits_i32(x: int) -> bool {
    i32::MIN <= x <= i32::MAX
}

/// Every running total of the modifiers' bonuses fits in an `i32`.
pub open spec fn bonuses_fit(mods: Seq<StateEffect>) -> bool {
    forall|k: int|
        0 <= k <= mods.len() ==> fits_i32(#[trigger] damage_bonus_total(mods.take(k)))
            && fits_i32(health_bonus_total(mods.take(k)))
}

impl CardView {
    pub open spec fn wf(self) -> bool {
        kinds_unique(self.effects)
    }

    pub open spec fn with_health(self, health: int) -> CardView {
        CardView { health, ..self }
    }

    pub open spec fn with_bonuses(self, added_damage: int, health_overload: int) -> CardView {
        CardView { added_damage, health_overload, ..self }
    }

    pub open spec fn with_effects(self, effects: Seq<Effect>) -> CardView {
        CardView { effects, ..self }
    }

    /// Base damage plus every active damage bonus.
    pub open spec fn effective_damage(self) -> int {
        self.base_damage + self.added_damage
    }

    /// The card with its derived stats recomputed from its modifiers.
    pub open spec fn recalculated(self) -> CardView {
        self.with_bonuses(
            damage_bonus_total(self.state_effects),
            health_bonus_total(self.state_effects),
        )
    }

    /// The card with its expired effects removed.
    pub open spec fn cleaned(self) -> CardView {
        self.with_effects(live_effects(self.effects))
    }
}

/// A combat unit: its stats, its transient effects and its persistent modifiers.
#[derive(Clone)]
pub struct Card {
    name: &'static str,
    health: i32,
    health_overload: i32,
    max_health: i32,
    base_damage: i32,
    added_damage: i32,
    description: &'static str,
    effects: Vec<Effect>,
    state_effects: Vec<StateEffect>,
}

impl View for Card {
    type V = CardView;

    closed spec fn view(&self) -> CardView {
        CardView {
            name: self.name@,
            health: self.health as int,
            health_overload: self.health_overload as int,
            max_health: self.max_health as int,
            base_damage: self.base_damage as int,
            added_damage: self.added_damage as int,
            description: self.description@,
            effects: self.effects@,
            state_effects: self.state_effects@,
        }
    }
}

impl Card {
    /// A card at full health, with no effects and no modifiers.
    pub fn new(name: &'static str, max_health: i32, damage: i32, description: &'static str) -> (r:
        Self)
        ensures
            r@ == (CardView {
                name: name@,
                health: max_health as int,
                health_overload: 0,
                max_health: max_health as int,
                base_damage: damage as int,
                added_damage: 0,
                description: description@,
                effects: Seq::empty(),
                state_effects: Seq::empty(),
            }),
            r@.wf(),
    {
        Card {
            name,
            health: max_health,
            health_overload: 0,
            max_health,
            base_damage: damage,
            added_damage: 0,
            description,
            effects: Vec::new(),
            state_effects: Vec::new(),
        }
    }

    /// Zeroes the derived stats and re-applies every modifier, in order.
    pub fn recalculate_stats(&mut self)
        requires
            bonuses_fit(old(self)@.state_effects),
        ensures
            final(self)@ == old(self)@.recalculated(),
    {
        let ghost start = self@;
        self.health_overload = 0;
        self.added_damage = 0;
        let n = self.state_effects.len();
        for i in 0..n
            invariant
                n == start.state_effects.len(),
                bonuses_fit(start.state_effects),
                self@ == start.with_bonuses(
                    damage_bonus_total(start.state_effects.take(i as int)),
                    health_bonus_total(start.state_effects.take(i as int)),
                ),
        {
            let ghost mods = start.state_effects;
            proof {
                assert(mods.take(i + 1).drop_last() =~= mods.take(i as int));
                assert(mods.take(i + 1).last() == mods[i as int]);
                assert(fits_i32(damage_bonus_total(mods.take(i + 1))));
            }
            let m = self.state_effects[i];
            m.apply(i, self);
        }
        proof {
            assert(start.state_effects.take(n as int) =~= start.state_effects);
        }
    }

    pub fn add_damage(&mut self, amount: i32)
        requires
            fits_i32(old(self)@.added_damage + amount),
        ensures
            final(self)@ == old(self)@.with_bonuses(
                old(self)@.added_damage + amount,
                old(self)@.health_overload,
            ),
    {
        self.added_damage = self.added_damage + amount;
    }

    pub fn add_health_overload(&mut self, amount: i32)
        requires
            fits_i32(old(self)@.health_overload + amount),
        ensures
            final(self)@ == old(self)@.with_bonuses(
                old(self)@.added_damage,
                old(self)@.health_overload + amount,
            ),
    {
        self.health_overload = self.health_overload + amount;
    }
}

impl Card {
    /// Runs the damage-taken trigger of every effect, in order, each seeing the
    /// amount left by the ones before it; then takes what is left off health.
    pub fn take_damage(&mut self, amount: i32, from_effect: bool)
        requires
            old(self)@.wf(),
            forall|i: int|
                0 <= i < old(self)@.effects.len() ==> can_react(
                    #[trigger] old(self)@.effects[i],
                    from_effect,
                ),
            fits_i32(damage_through(old(self)@.effects, amount as int, from_effect)),
            fits_i32(
                old(self)@.health - damage_through(old(self)@.effects, amount as int, from_effect),
            ),
        ensures
            final(self)@ == old(self)@.with_effects(
                effects_after_hit(old(self)@.effects, from_effect),
            ).with_health(
                old(self)@.health - damage_through(old(self)@.effects, amount as int, from_effect),
            ),
            final(self)@.wf(),
    {
        let ghost start = self@;
        let ghost effs = start.effects;
        let ghost a0 = amount as int;
        let mut amount = amount;
        let n = self.effects.len();
        let mut i: usize = 0;
        proof {
            assert(effs.take(0) =~= Seq::<Effect>::empty());
        }
        while i < n
            invariant
                n == effs.len(),
                0 <= i <= n,
                self@ == start.with_effects(self@.effects),
                self@.effects.len() == n,
                forall|j: int| 0 <= j < i ==> self@.effects[j] == after_hit(effs[j], from_effect),
                forall|j: int| i <= j < n ==> self@.effects[j] == effs[j],
                amount as int == damage_through(effs.take(i as int), a0, from_effect),
                forall|j: int| 0 <= j < n ==> can_react(#[trigger] effs[j], from_effect),
                fits_i32(damage_through(effs, a0, from_effect)),
            decreases n - i,
        {
            proof {
                assert(effs.take(i + 1).drop_last() =~= effs.take(i as int));
                lemma_partial_damage_between(effs, i + 1, a0, from_effect);
            }
            let mut e = self.effects[i];
            e.on_damage_taken(&mut amount, from_effect);
            self.effects.set(i, e);
            i = i + 1;
        }
        proof {
            assert(effs.take(n as int) =~= effs);
            assert(self@.effects =~= effects_after_hit(effs, from_effect));
        }
        self.health = self.health - amount;
        proof {
            assert(self@ =~= start.with_effects(effects_after_hit(effs, from_effect)).with_health(
                start.health - damage_through(effs, a0, from_effect),
            ));
            lemma_hit_keeps_kinds(effs, from_effect);
        }
    }

    /// Adds `amount` to the stack of the effect of kind `effect_type`, or
    /// appends a new effect with that stack where the card has none.
    pub fn apply_effect(&mut self, effect_type: EffectType, amount: i32)
        requires
            old(self)@.wf(),
            fits_i32(stack_of(old(self)@.effects, effect_type) + amount),
        ensures
            final(self)@ == old(self)@.with_effects(
                effects_after_apply(old(self)@.effects, effect_type, amount as int),
            ),
            final(self)@.wf(),
    {
        let ghost start = self@;
        let ghost effs = start.effects;
        proof {
            lemma_apply_keeps_unique(effs, effect_type, amount as int);
        }
        match self.position_of_kind(effect_type) {
            Some(i) => {
                proof {
                    lemma_stack_at(effs, effect_type, i as int);
                    let c = choose|c: int| is_first_of_kind(effs, effect_type, c);
                    assert(c == i);
                }
                let mut e = self.effects[i];
                e.stack = e.stack + amount;
                self.effects.set(i, e);
            },
            None => {
                self.effects.push(Effect::new(amount, effect_type));
            },
        }
        proof {
            assert(self.effects@ =~= effects_after_apply(effs, effect_type, amount as int));
        }
    }

    /// The position of the first effect of kind `kind`, if there is one.
    fn position_of_kind(&self, kind: EffectType) -> (r: Option<usize>)
        ensures
            r matches Some(i) ==> is_first_of_kind(self@.effects, kind, i as int),
            r is None ==> !exists|i: int| is_first_of_kind(self@.effects, kind, i),
    {
        let n = self.effects.len();
        let mut i: usize = 0;
        while i < n
            invariant
                n == self.effects@.len(),
                0 <= i <= n,
                forall|j: int| 0 <= j < i ==> #[trigger] self.effects@[j].effect_type != kind,
            decreases n - i,
        {
            if self.effects[i].effect_type == kind {
                return Some(i);
            }
            i = i + 1;
        }
        None
    }

    /// Removes every effect whose stack is not positive.
    pub fn clean(&mut self)
        requires
            old(self)@.wf(),
        ensures
            final(self)@ == old(self)@.cleaned(),
            final(self)@.wf(),
            forall|i: int| 0 <= i < final(self)@.effects.len() ==> #[trigger] final(self)@.effects[i].stack > 0,
    {
        let ghost start = self@;
        let ghost effs = start.effects;
        let mut kept: Vec<Effect> = Vec::new();
        let n = self.effects.len();
        let mut i: usize = 0;
        proof {
            reveal(Seq::filter);
            assert(effs.take(0) =~= Seq::<Effect>::empty());
        }
        while i < n
            invariant
                n == effs.len(),
                0 <= i <= n,
                self@ == start,
                self.effects@ == effs,
                kept@ == live_effects(effs.take(i as int)),
            decreases n - i,
        {
            proof {
                reveal(Seq::filter);
                assert(effs.take(i + 1).drop_last() =~= effs.take(i as int));
            }
            let e = self.effects[i];
            if e.stack > 0 {
                kept.push(e);
            }
            i = i + 1;
        }
        proof {
            assert(effs.take(n as int) =~= effs);
            lemma_live_effects(effs);
        }
        self.effects = kept;
        proof {
            assert(self@ =~= start.cleaned());
        }
    }

    /// Appends a persistent modifier; derived stats change on the next
    /// recalculation.
    pub fn add_state_effect(&mut self, state_effect: StateEffect)
        ensures
            final(self)@ == (CardView {
                state_effects: old(self)@.state_effects.push(state_effect),
                ..old(self)@
            }),
    {
        self.state_effects.push(state_effect);
    }

    pub fn name(&self) -> (r: &'static str)
        ensures
            r@ == self@.name,
    {
        self.name
    }

    pub fn description(&self) -> (r: &'static str)
        ensures
            r@ == self@.description,
    {
        self.description
    }

    pub fn health(&self) -> (r: i32)
        ensures
            r == self@.health,
    {
        self.health
    }

    pub fn max_health(&self) -> (r: i32)
        ensures
            r == self@.max_health,
    {
        self.max_health
    }

    pub fn health_overload(&self) -> (r: i32)
        ensures
            r == self@.health_overload,
    {
        self.health_overload
    }

    pub fn base_damage(&self) -> (r: i32)
        ensures
            r == self@.base_damage,
    {
        self.base_damage
    }

    pub fn added_damage(&self) -> (r: i32)
        ensures
            r == self@.added_damage,
    {
        self.added_damage
    }

    /// Base damage plus every active damage bonus.
    pub fn damage(&self) -> (r: i64)
        ensures
            r == self@.effective_damage(),
    {
        self.base_damage as i64 + self.added_damage as i64
    }

    /// The description broken into the lines that fit inside the card's border.
    pub fn description_lines(&self) -> (r: Vec<String>)
        ensures
            line_views(r@) == wrapped_lines(self@.description, (CARD_WIDTH - 2) as usize),
    {
        wrap_text(self.description, (CARD_WIDTH - 2) as usize)
    }

    pub fn effects(&self) -> (r: &Vec<Effect>)
        ensures
            r@ == self@.effects,
    {
        &self.effects
    }

    pub fn state_effects(&self) -> (r: &Vec<StateEffect>)
        ensures
            r@ == self@.state_effects,
    {
        &self.state_effects
    }
}

/// Each running amount lies between zero and the final amount: reactions
/// only ever double it.
proof fn lemma_partial_damage_between(effects: Seq<Effect>, k: int, amount: int, from_effect: bool)
    requires
        0 <= k <= effects.len(),
    ensures
        amount >= 0 ==> 0 <= damage_through(effects.take(k), amount, from_effect) <= damage_through(
            effects,
            amount,
            from_effect,
        ),
        amount < 0 ==> damage_through(effects, amount, from_effect) <= damage_through(
            effects.take(k),
            amount,
            from_effect,
        ) <= 0,
    decreases effects.len(),
{
    if k == effects.len() {
        assert(effects.take(k) =~= effects);
        lemma_damage_sign(effects, amount, from_effect);
    } else {
        assert(effects.take(k) =~= effects.drop_last().take(k));
        lemma_partial_damage_between(effects.drop_last(), k, amount, from_effect);
        lemma_damage_sign(effects.drop_last(), amount, from_effect);
    }
}

proof fn lemma_damage_sign(effects: Seq<Effect>, amount: int, from_effect: bool)
    ensures
        amount >= 0 ==> damage_through(effects, amount, from_effect) >= 0,
        amount < 0 ==> damage_through(effects, amount, from_effect) < 0,
    decreases effects.len(),
{
    if effects.len() > 0 {
        lemma_damage_sign(effects.drop_last(), amount, from_effect);
    }
}

proof fn lemma_hit_keeps_kinds(effects: Seq<Effect>, from_effect: bool)
    requires
        kinds_unique(effects),
    ensures
        kinds_unique(effects_after_hit(effects, from_effect)),
{
    let r = effects_after_hit(effects, from_effect);
    assert forall|i: int, j: int| 0 <= i < j < r.len() implies #[trigger] r[i].effect_type
        != #[trigger] r[j].effect_type by {
        assert(r[i].effect_type == effects[i].effect_type);
        assert(r[j].effect_type == effects[j].effect_type);
    }
}

/// Where kinds are unique, the stack of a kind is that of any entry of it.
proof fn lemma_stack_at(effects: Seq<Effect>, kind: EffectType, i: int)
    requires
        kinds_unique(effects),
        0 <= i < effects.len(),
        effects[i].effect_type == kind,
    ensures
        is_first_of_kind(effects, kind, i),
        stack_of(effects, kind) == effects[i].stack,
{
    assert(is_first_of_kind(effects, kind, i));
    let c = choose|c: int| is_first_of_kind(effects, kind, c);
    assert(effects[c].effect_type == kind);
    assert(c == i);
}

proof fn lemma_stack_none(effects: Seq<Effect>, kind: EffectType)
    requires
        !has_kind(effects, kind),
    ensures
        stack_of(effects, kind) == 0,
{
    assert(!exists|i: int| is_first_of_kind(effects, kind, i));
}

proof fn lemma_apply_keeps_unique(effects: Seq<Effect>, kind: EffectType, amount: int)
    requires
        kinds_unique(effects),
    ensures
        kinds_unique(effects_after_apply(effects, kind, amount)),
        has_kind(effects_after_apply(effects, kind, amount), kind),
        stack_of(effects_after_apply(effects, kind, amount), kind) == (stack_of(effects, kind)
            + amount) as i32,
{
    let r = effects_after_apply(effects, kind, amount);
    if has_kind(effects, kind) {
        let i = choose|i: int| 0 <= i < effects.len() && #[trigger] effects[i].effect_type == kind;
        lemma_stack_at(effects, kind, i);
        let c = choose|c: int| is_first_of_kind(effects, kind, c);
        assert(c == i);
        assert(r == effects.update(
            i,
            Effect { stack: (effects[i].stack + amount) as i32, effect_type: kind },
        ));
        assert forall|a: int, b: int| 0 <= a < b < r.len() implies #[trigger] r[a].effect_type
            != #[trigger] r[b].effect_type by {
            assert(r[a].effect_type == effects[a].effect_type);
            assert(r[b].effect_type == effects[b].effect_type);
        }
        assert(r[i].effect_type == kind);
        lemma_stack_at(r, kind, i);
    } else {
        assert(!exists|i: int| is_first_of_kind(effects, kind, i));
        lemma_stack_none(effects, kind);
        let n = effects.len() as int;
        assert(r == effects.push(Effect { stack: amount as i32, effect_type: kind }));
        assert forall|a: int, b: int| 0 <= a < b < r.len() implies #[trigger] r[a].effect_type
            != #[trigger] r[b].effect_type by {
            if b == n {
                assert(effects[a].effect_type != kind);
            } else {
                assert(r[a] == effects[a]);
                assert(r[b] == effects[b]);
            }
        }
        assert(r[n].effect_type == kind);
        lemma_stack_at(r, kind, n);
    }
}

/// The live effects keep their kinds apart, all have a positive stack, and
/// each was among the effects.
proof fn lemma_live_effects(effects: Seq<Effect>)
    requires
        kinds_unique(effects),
    ensures
        kinds_unique(live_effects(effects)),
        forall|i: int| 0 <= i < live_effects(effects).len() ==> #[trigger] live_effects(effects)[i].stack > 0,
        forall|x: Effect| #[trigger] live_effects(effects).contains(x) ==> effects.contains(x),
    decreases effects.len(),
{
    reveal(Seq::filter);
    if effects.len() > 0 {
        let d = effects.drop_last();
        let last = effects.last();
        let n = d.len() as int;
        assert forall|a: int, b: int| 0 <= a < b < d.len() implies #[trigger] d[a].effect_type
            != #[trigger] d[b].effect_type by {
            assert(d[a] == effects[a] && d[b] == effects[b]);
        }
        lemma_live_effects(d);
        let ld = live_effects(d);
        if last.stack > 0 {
            let r = ld.push(last);
            assert(live_effects(effects) == r);
            assert forall|a: int, b: int| 0 <= a < b < r.len() implies #[trigger] r[a].effect_type
                != #[trigger] r[b].effect_type by {
                if b == ld.len() {
                    assert(ld.contains(ld[a]));
                    let m = choose|m: int| 0 <= m < d.len() && d[m] == ld[a];
                    assert(effects[m] == d[m]);
                    assert(effects[n] == last);
                }
            }
            assert forall|x: Effect| #[trigger] r.contains(x) implies effects.contains(x) by {
                let k = choose|k: int| 0 <= k < r.len() && r[k] == x;
                if k == ld.len() {
                    assert(effects[n] == x);
                } else {
                    assert(ld.contains(x));
                    let m = choose|m: int| 0 <= m < d.len() && d[m] == x;
                    assert(effects[m] == x);
                }
            }
        } else {
            assert(live_effects(effects) == ld);
            assert forall|x: Effect| #[trigger] ld.contains(x) implies effects.contains(x) by {
                let m = choose|m: int| 0 <= m < d.len() && d[m] == x;
                assert(effects[m] == x);
            }
        }
    } else {
        assert(live_effects(effects) == effects);
    }
}

/// Damage that comes from an effect passes every effect unchanged, and no
/// effect reacts to it.
pub proof fn lemma_effect_damage_unchanged(effects: Seq<Effect>, amount: int)
    ensures
        damage_through(effects, amount, true) == amount,
        effects_after_hit(effects, true) == effects,
    decreases effects.len(),
{
    if effects.len() > 0 {
        lemma_effect_damage_unchanged(effects.drop_last(), amount);
    }
    assert(effects_after_hit(effects, true) =~= effects);
}

/// Applying amounts of one kind, one call after another, leaves exactly one
/// entry of that kind, and its stack is the stack the kind had before (0 where
/// the card had none) plus the sum of the amounts.
pub proof fn lemma_stacks_accumulate(effects: Seq<Effect>, kind: EffectType, amounts: Seq<i32>)
    requires
        kinds_unique(effects),
        amounts.len() > 0,
        forall|k: int|
            0 <= k <= amounts.len() ==> fits_i32(
                stack_of(effects, kind) + #[trigger] total(amounts.take(k)),
            ),
    ensures
        kinds_unique(effects_after_applying_all(effects, kind, amounts)),
        exists|i: int|
            #[trigger] is_only_of_kind(effects_after_applying_all(effects, kind, amounts), kind, i)
                && effects_after_applying_all(effects, kind, amounts)[i].stack == stack_of(
                effects,
                kind,
            ) + total(amounts),
{
    lemma_applying_all(effects, kind, amounts);
    let r = effects_after_applying_all(effects, kind, amounts);
    let i = choose|i: int| 0 <= i < r.len() && #[trigger] r[i].effect_type == kind;
    lemma_stack_at(r, kind, i);
    assert forall|j: int| 0 <= j < r.len() && #[trigger] r[j].effect_type == kind implies j == i by {
        if j < i {
            assert(r[j].effect_type != r[i].effect_type);
        } else if j > i {
            assert(r[i].effect_type != r[j].effect_type);
        }
    }
    assert(is_only_of_kind(r, kind, i));
}

proof fn lemma_applying_all(effects: Seq<Effect>, kind: EffectType, amounts: Seq<i32>)
    requires
        kinds_unique(effects),
        forall|k: int|
            0 <= k <= amounts.len() ==> fits_i32(
                stack_of(effects, kind) + #[trigger] total(amounts.take(k)),
            ),
    ensures
        kinds_unique(effects_after_applying_all(effects, kind, amounts)),
        stack_of(effects_after_applying_all(effects, kind, amounts), kind) == stack_of(
            effects,
            kind,
        ) + total(amounts),
        amounts.len() > 0 ==> has_kind(effects_after_applying_all(effects, kind, amounts), kind),
    decreases amounts.len(),
{
    if amounts.len() > 0 {
        let d = amounts.drop_last();
        assert forall|k: int| 0 <= k <= d.len() implies fits_i32(
            stack_of(effects, kind) + #[trigger] total(d.take(k)),
        ) by {
            assert(d.take(k) =~= amounts.take(k));
        }
        lemma_applying_all(effects, kind, d);
        let prev = effects_after_applying_all(effects, kind, d);
        assert(amounts.take(amounts.len() as int) =~= amounts);
        assert(fits_i32(stack_of(effects, kind) + total(amounts)));
        lemma_apply_keeps_unique(prev, kind, amounts.last() as int);
    } else {
        assert(total(amounts) == 0);
    }
}

proof fn lemma_live_positive(effects: Seq<Effect>)
    ensures
        forall|i: int| 0 <= i < live_effects(effects).len() ==> #[trigger] live_effects(effects)[i].stack > 0,
    decreases effects.len(),
{
    reveal(Seq::filter);
    if effects.len() > 0 {
        lemma_live_positive(effects.drop_last());
    }
}

proof fn lemma_live_of_positive(effects: Seq<Effect>)
    requires
        forall|i: int| 0 <= i < effects.len() ==> #[trigger] effects[i].stack > 0,
    ensures
        live_effects(effects) == effects,
    decreases effects.len(),
{
    reveal(Seq::filter);
    if effects.len() > 0 {
        let d = effects.drop_last();
        assert forall|i: int| 0 <= i < d.len() implies #[trigger] d[i].stack > 0 by {
            assert(d[i] == effects[i]);
        }
        lemma_live_of_positive(d);
        assert(d.push(effects.last()) =~= effects);
    } else {
        assert(live_effects(effects) =~= effects);
    }
}

/// Cleaning twice in a row leaves the same card as cleaning once.
pub proof fn lemma_clean_idempotent(v: CardView)
    ensures
        v.cleaned().cleaned() == v.cleaned(),
{
    lemma_live_positive(v.effects);
    lemma_live_of_positive(live_effects(v.effects));
}

/// Recalculating twice in a row gives the same card as recalculating once:
/// the derived stats are computed from the modifiers alone.
pub proof fn lemma_recalculate_idempotent(v: CardView)
    ensures
        v.recalculated().recalculated() == v.recalculated(),
{
}

proof fn lemma_totals_remove(mods: Seq<StateEffect>, j: int)
    requires
        0 <= j < mods.len(),
    ensures
        damage_bonus_total(mods) == damage_bonus_total(mods.remove(j)) + mods[j].damage_bonus(),
        health_bonus_total(mods) == health_bonus_total(mods.remove(j)) + mods[j].health_bonus(),
    decreases mods.len(),
{
    if j == mods.len() - 1 {
        assert(mods.remove(j) =~= mods.drop_last());
    } else {
        let d = mods.drop_last();
        lemma_totals_remove(d, j);
        assert(mods.remove(j).drop_last() =~= d.remove(j));
        assert(mods.remove(j).last() == mods.last());
    }
}

/// The derived stats do not depend on the order of the modifiers: any
/// rearrangement of them gives the same totals.
pub proof fn lemma_bonuses_order_free(a: Seq<StateEffect>, b: Seq<StateEffect>)
    requires
        a.to_multiset() == b.to_multiset(),
    ensures
        damage_bonus_total(a) == damage_bonus_total(b),
        health_bonus_total(a) == health_bonus_total(b),
    decreases a.len(),
{
    broadcast use vstd::seq_lib::group_to_multiset_ensures;

    if a.len() == 0 {
        assert(a.to_multiset().len() == 0);
        assert(b.to_multiset().len() == 0);
        assert(b =~= a);
    } else {
        let x = a.last();
        let d = a.drop_last();
        assert(d.push(x) =~= a);
        assert(a.to_multiset() =~= d.to_multiset().insert(x));
        assert(b.to_multiset().count(x) > 0);
        assert(b.contains(x));
        let j = choose|j: int| 0 <= j < b.len() && b[j] == x;
        let rest = b.remove(j);
        assert(rest.to_multiset() =~= b.to_multiset().remove(x));
        assert(rest.to_multiset() =~= d.to_multiset());
        lemma_bonuses_order_free(d, rest);
        lemma_totals_remove(b, j);
    }
}

/// An attack is doubled at most once, by the card's curse where it has one;
/// damage from an effect is never amplified. At most one effect reacts.
pub proof fn lemma_amplified_at_most_once(effects: Seq<Effect>, amount: int, from_effect: bool)
    requires
        kinds_unique(effects),
    ensures
        damage_through(effects, amount, from_effect) == if !from_effect && has_kind(
            effects,
            EffectType::Curse,
        ) {
            2 * amount
        } else {
            amount
        },
        forall|i: int, j: int|
            0 <= i < effects.len() && 0 <= j < effects.len() && i != j
                && #[trigger] effects_after_hit(effects, from_effect)[i] != effects[i]
                ==> #[trigger] effects_after_hit(effects, from_effect)[j] == effects[j],
    decreases effects.len(),
{
    let hit = effects_after_hit(effects, from_effect);
    assert forall|i: int, j: int|
        0 <= i < effects.len() && 0 <= j < effects.len() && i != j && #[trigger] hit[i]
            != effects[i] implies #[trigger] hit[j] == effects[j] by {
        if hit[j] != effects[j] {
            assert(effects[i].effect_type == EffectType::Curse);
            assert(effects[j].effect_type == EffectType::Curse);
            if i < j {
                assert(effects[i].effect_type != effects[j].effect_type);
            } else {
                assert(effects[j].effect_type != effects[i].effect_type);
            }
        }
    }
    if effects.len() > 0 {
        let d = effects.drop_last();
        let n = d.len() as int;
        assert forall|a: int, b: int| 0 <= a < b < d.len() implies #[trigger] d[a].effect_type
            != #[trigger] d[b].effect_type by {
            assert(d[a] == effects[a] && d[b] == effects[b]);
        }
        lemma_amplified_at_most_once(d, amount, from_effect);
        if has_kind(d, EffectType::Curse) {
            let m = choose|m: int| 0 <= m < d.len() && #[trigger] d[m].effect_type == EffectType::Curse;
            assert(effects[m] == d[m]);
            assert(effects[m].effect_type != effects[n].effect_type);
        }
        if has_kind(effects, EffectType::Curse) && effects.last().effect_type != EffectType::Curse {
            let m = choose|m: int|
                0 <= m < effects.len() && #[trigger] effects[m].effect_type == EffectType::Curse;
            assert(d[m] == effects[m]);
        }
        if effects.last().effect_type == EffectType::Curse {
            assert(effects[n].effect_type == EffectType::Curse);
        }
    }
}

} // verus!
