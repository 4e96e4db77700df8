use cardgame::{Card, Effect, EffectType, StateEffect};

#[test]
fn new_card_starts_at_full_health() {
    let card = Card::new("Joe", 3, 2, "Joe");
    assert_eq!(card.name(), "Joe");
    assert_eq!(card.description(), "Joe");
    assert_eq!(card.health(), 3);
    assert_eq!(card.max_health(), 3);
    assert_eq!(card.base_damage(), 2);
    assert_eq!(card.added_damage(), 0);
    assert_eq!(card.health_overload(), 0);
    assert_eq!(card.damage(), 2);
    assert!(card.effects().is_empty());
    assert!(card.state_effects().is_empty());
}

#[test]
fn poison_tick_scenario() {
    let mut card = Card::new("Squirrel", 10, 2, "");
    card.apply_effect(EffectType::Poison, 3);
    let mut poison = card.effects()[0];
    poison.on_turn_end(&mut card);
    assert_eq!(card.health(), 7);
    assert_eq!(poison.stack, 2);
}

#[test]
fn poison_tick_repeats_with_decaying_stack() {
    let mut card = Card::new("Squirrel", 10, 2, "");
    let mut poison = Effect::new(3, EffectType::Poison);
    poison.on_turn_end(&mut card);
    poison.on_turn_end(&mut card);
    poison.on_turn_end(&mut card);
    assert_eq!(card.health(), 4);
    assert_eq!(poison.stack, 0);
}

#[test]
fn poison_tick_is_not_amplified_by_curse() {
    let mut card = Card::new("Squirrel", 10, 2, "");
    card.apply_effect(EffectType::Curse, 2);
    let mut poison = Effect::new(3, EffectType::Poison);
    poison.on_turn_end(&mut card);
    assert_eq!(card.health(), 7);
    assert_eq!(card.effects()[0], Effect::new(2, EffectType::Curse));
}

#[test]
fn curse_on_turn_end_does_nothing() {
    let mut card = Card::new("Squirrel", 10, 2, "");
    let mut curse = Effect::new(2, EffectType::Curse);
    curse.on_turn_end(&mut card);
    assert_eq!(card.health(), 10);
    assert_eq!(curse.stack, 2);
}

#[test]
fn curse_doubles_attack_scenario() {
    let mut card = Card::new("Joe", 20, 2, "");
    card.apply_effect(EffectType::Curse, 2);
    card.take_damage(4, false);
    assert_eq!(card.health(), 12);
    assert_eq!(card.effects()[0].stack, 1);
}

#[test]
fn curse_ignores_effect_damage() {
    let mut card = Card::new("Joe", 20, 2, "");
    card.apply_effect(EffectType::Curse, 2);
    card.take_damage(4, true);
    assert_eq!(card.health(), 16);
    assert_eq!(card.effects()[0].stack, 2);
}

#[test]
fn curse_doubles_once_with_poison_present() {
    let mut card = Card::new("Joe", 20, 2, "");
    card.apply_effect(EffectType::Poison, 5);
    card.apply_effect(EffectType::Curse, 3);
    card.take_damage(3, false);
    assert_eq!(card.health(), 14);
    assert_eq!(card.effects()[0], Effect::new(5, EffectType::Poison));
    assert_eq!(card.effects()[1], Effect::new(2, EffectType::Curse));
}

#[test]
fn damage_without_effects_is_unchanged() {
    let mut card = Card::new("Joe", 5, 2, "");
    card.take_damage(7, false);
    assert_eq!(card.health(), -2);
}

#[test]
fn on_damage_taken_reacts_only_for_curse_attacks() {
    let mut curse = Effect::new(2, EffectType::Curse);
    let mut damage = 5;
    curse.on_damage_taken(&mut damage, false);
    assert_eq!(damage, 10);
    assert_eq!(curse.stack, 1);

    let mut damage = 5;
    curse.on_damage_taken(&mut damage, true);
    assert_eq!(damage, 5);
    assert_eq!(curse.stack, 1);

    let mut poison = Effect::new(2, EffectType::Poison);
    let mut damage = 5;
    poison.on_damage_taken(&mut damage, false);
    assert_eq!(damage, 5);
    assert_eq!(poison.stack, 2);
}

#[test]
fn same_kind_merges_into_one_entry() {
    let mut card = Card::new("Joe", 5, 2, "");
    card.apply_effect(EffectType::Poison, 2);
    card.apply_effect(EffectType::Poison, 4);
    card.apply_effect(EffectType::Poison, -1);
    assert_eq!(card.effects().len(), 1);
    assert_eq!(card.effects()[0], Effect::new(5, EffectType::Poison));
}

#[test]
fn kinds_keep_insertion_order() {
    let mut card = Card::new("Joe", 5, 2, "");
    card.apply_effect(EffectType::Curse, 1);
    card.apply_effect(EffectType::Poison, 2);
    card.apply_effect(EffectType::Curse, 1);
    assert_eq!(card.effects().len(), 2);
    assert_eq!(card.effects()[0], Effect::new(2, EffectType::Curse));
    assert_eq!(card.effects()[1], Effect::new(2, EffectType::Poison));
}

#[test]
fn clean_removes_expired_effects() {
    let mut card = Card::new("Joe", 5, 2, "");
    card.apply_effect(EffectType::Poison, 1);
    card.apply_effect(EffectType::Curse, 2);
    card.apply_effect(EffectType::Poison, -1);
    card.clean();
    assert_eq!(card.effects().len(), 1);
    assert_eq!(card.effects()[0], Effect::new(2, EffectType::Curse));
}

#[test]
fn clean_removes_negative_stacks() {
    let mut card = Card::new("Joe", 5, 2, "");
    card.apply_effect(EffectType::Curse, -3);
    card.clean();
    assert!(card.effects().is_empty());
}

#[test]
fn clean_twice_equals_clean_once() {
    let mut card = Card::new("Joe", 5, 2, "");
    card.apply_effect(EffectType::Poison, 0);
    card.apply_effect(EffectType::Curse, 4);
    card.clean();
    let once = card.effects().clone();
    card.clean();
    assert_eq!(card.effects(), &once);
    assert_eq!(once, vec![Effect::new(4, EffectType::Curse)]);
}

#[test]
fn clean_on_empty_card_is_empty() {
    let mut card = Card::new("Joe", 5, 2, "");
    card.clean();
    assert!(card.effects().is_empty());
}

#[test]
fn flat_damage_modifiers_add_up_scenario() {
    let mut card = Card::new("Joe", 5, 2, "");
    card.add_state_effect(StateEffect::AddDamage { amount: 3 });
    card.add_state_effect(StateEffect::AddDamage { amount: 3 });
    card.recalculate_stats();
    assert_eq!(card.added_damage(), 6);
    assert_eq!(card.damage(), 8);
}

#[test]
fn recalculate_is_idempotent() {
    let mut card = Card::new("Joe", 5, 2, "");
    card.add_state_effect(StateEffect::AddDamage { amount: 3 });
    card.add_state_effect(StateEffect::AddMaxHealth { amount: 4, applied: false });
    card.recalculate_stats();
    card.recalculate_stats();
    card.recalculate_stats();
    assert_eq!(card.added_damage(), 3);
    assert_eq!(card.health_overload(), 4);
    assert_eq!(card.max_health(), 5);
    assert_eq!(card.health(), 5);
}

#[test]
fn recalculate_ignores_modifier_order() {
    let mut a = Card::new("A", 5, 1, "");
    a.add_state_effect(StateEffect::AddDamage { amount: 2 });
    a.add_state_effect(StateEffect::AddMaxHealth { amount: 7, applied: true });
    a.add_state_effect(StateEffect::AddDamage { amount: -5 });
    a.recalculate_stats();
    let mut b = Card::new("B", 5, 1, "");
    b.add_state_effect(StateEffect::AddDamage { amount: -5 });
    b.add_state_effect(StateEffect::AddDamage { amount: 2 });
    b.add_state_effect(StateEffect::AddMaxHealth { amount: 7, applied: true });
    b.recalculate_stats();
    assert_eq!(a.added_damage(), -3);
    assert_eq!(a.added_damage(), b.added_damage());
    assert_eq!(a.health_overload(), 7);
    assert_eq!(a.health_overload(), b.health_overload());
}

#[test]
fn derived_stats_are_stale_until_recalculated() {
    let mut card = Card::new("Joe", 5, 2, "");
    card.add_state_effect(StateEffect::AddDamage { amount: 3 });
    assert_eq!(card.added_damage(), 0);
    card.recalculate_stats();
    assert_eq!(card.added_damage(), 3);
}

#[test]
fn state_effect_apply_touches_derived_stats_only() {
    let mut card = Card::new("Joe", 5, 2, "");
    StateEffect::AddDamage { amount: 4 }.apply(0, &mut card);
    StateEffect::AddMaxHealth { amount: 6, applied: false }.apply(1, &mut card);
    assert_eq!(card.added_damage(), 4);
    assert_eq!(card.health_overload(), 6);
    assert_eq!(card.health(), 5);
    assert_eq!(card.max_health(), 5);
    assert!(card.state_effects().is_empty());
}

#[test]
fn add_damage_and_overload_accumulate() {
    let mut card = Card::new("Joe", 5, 2, "");
    card.add_damage(3);
    card.add_damage(-1);
    card.add_health_overload(2);
    card.add_health_overload(2);
    assert_eq!(card.added_damage(), 2);
    assert_eq!(card.health_overload(), 4);
    assert_eq!(card.damage(), 4);
}

#[test]
fn description_wraps_inside_border() {
    let card = Card::new("Joe", 5, 2, "Hides nuts in the deep snow");
    let lines = card.description_lines();
    assert_eq!(lines, vec!["Hides nuts in the", "deep snow"]);
}

#[test]
fn short_description_is_one_line() {
    let card = Card::new("Joe", 5, 2, "Joe");
    assert_eq!(card.description_lines(), vec!["Joe".to_string()]);
}
