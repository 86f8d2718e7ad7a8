//! Confirming in a battle: leaving the introduction, the main menu's
//! choices (fight, bag, ball, ability, run), using an item, the next hit
//! of a combo, the enemy's turn, and the end.
use vstd::prelude::*;
use crate::outcome::Outcome;
use crate::poketui::action::Effect;
use crate::poketui::battle::display_name;
use crate::poketui::combat::{blow_fits, enemy_blow, enemy_damage, hit_view, hit_views};
use crate::poketui::reducer::{
    active_hp_synced, available_items, battle_message_set, menu_prompt, message_pushed, push_message,
    set_battle_item_prompt, set_battle_menu_prompt, stack_of, take_item, usable_items,
};
use crate::poketui::state::{item_heal, item_label, AppState, BattleStage, BattleState, ItemKind, ItemStack, PartyMember};
use crate::poketui::strikes::{apply_combo_hit, can_strike, hit_applied};
use crate::text::{dec, dec_u64, owned, push_str};

verus! {

/// A notice shown, then the battle menu's prompt.
pub open spec fn noticed(o: AppState, n: AppState, msg: Seq<char>) -> bool {
    exists|mid: AppState| #[trigger] message_pushed(o, mid, msg) && battle_message_set(mid, n, menu_prompt(o))
}

pub fn notice(state: &mut AppState, msg: String)
    ensures
        noticed(*old(state), *final(state), msg@),
{
    push_message(state, msg);
    let ghost mid = *state;
    set_battle_menu_prompt(state);
    assert(message_pushed(*old(state), mid, msg@));
}

/// The battle moved to `stage`.
pub open spec fn staged(o: AppState, n: AppState, stage: BattleStage) -> bool {
    match o.battle {
        Some(b) => n == (AppState { battle: Some(BattleState { stage, ..b }), ..o }),
        None => n == o,
    }
}

pub fn set_stage(state: &mut AppState, stage: BattleStage)
    ensures
        staged(*old(state), *final(state), stage),
{
    match state.battle.take() {
        Some(mut b) => {
            b.stage = stage;
            state.battle = Some(b);
        },
        None => {},
    }
}

/// Back to the main menu with a notice.
pub open spec fn back_to_menu(o: AppState, n: AppState, msg: Seq<char>) -> bool {
    exists|s1: AppState| #[trigger] staged(o, s1, BattleStage::Menu) && noticed(s1, n, msg)
}

fn return_to_menu(state: &mut AppState, msg: String)
    ensures
        back_to_menu(*old(state), *final(state), msg@),
{
    set_stage(state, BattleStage::Menu);
    let ghost s1 = *state;
    notice(state, msg);
    assert(staged(*old(state), s1, BattleStage::Menu));
}

/// Leaving the introduction: the main menu and its prompt.
pub open spec fn intro_left(o: AppState, n: AppState) -> bool {
    exists|s1: AppState| #[trigger] staged(o, s1, BattleStage::Menu) && battle_message_set(s1, n, menu_prompt(o))
}

fn confirm_intro(state: &mut AppState)
    ensures
        intro_left(*old(state), *final(state)),
{
    set_stage(state, BattleStage::Menu);
    let ghost s1 = *state;
    set_battle_menu_prompt(state);
    assert(staged(*old(state), s1, BattleStage::Menu));
}

/// Opening the bag: with nothing usable a notice; otherwise the item menu
/// from its first entry and its prompt.
pub open spec fn bag_opened(o: AppState, n: AppState) -> bool {
    if usable_items(o.inventory@).len() == 0 {
        noticed(o, n, "Your bag is empty."@)
    } else {
        match o.battle {
            Some(b) => battle_message_set(
                AppState { battle: Some(BattleState { stage: BattleStage::ItemMenu, item_index: 0, ..b }), ..o },
                n,
                "Choose an item."@,
            ),
            None => battle_message_set(o, n, "Choose an item."@),
        }
    }
}

fn open_bag(state: &mut AppState)
    ensures
        bag_opened(*old(state), *final(state)),
{
    let items = available_items(&state.inventory);
    if items.len() == 0 {
        notice(state, owned("Your bag is empty."));
        return;
    }
    match state.battle.take() {
        Some(mut b) => {
            b.stage = BattleStage::ItemMenu;
            b.item_index = 0;
            state.battle = Some(b);
        },
        None => {},
    }
    set_battle_item_prompt(state);
}

/// Running: not from a boss (a notice); from a wild creature, away safely.
pub open spec fn ran(o: AppState, n: AppState) -> bool {
    match o.battle {
        Some(b) => if b.kind == crate::poketui::state::BattleKind::Boss {
            noticed(o, n, "Can't run from a boss!"@)
        } else {
            n.battle matches Some(nb) && nb.message@ == "Got away safely!"@ && n == (AppState {
                battle: Some(BattleState { stage: BattleStage::Escape, message: nb.message, ..b }),
                ..o
            })
        },
        None => n == o,
    }
}

fn run_away(state: &mut AppState)
    ensures
        ran(*old(state), *final(state)),
{
    let is_boss = match &state.battle {
        Some(b) => b.kind == crate::poketui::state::BattleKind::Boss,
        None => return,
    };
    if is_boss {
        notice(state, owned("Can't run from a boss!"));
        return;
    }
    match state.battle.take() {
        Some(mut b) => {
            b.stage = BattleStage::Escape;
            b.message = owned("Got away safely!");
            state.battle = Some(b);
        },
        None => {},
    }
}

/// The item chosen in the item menu: the one under the cursor, else the
/// first.
pub open spec fn chosen_item(s: AppState) -> ItemKind {
    let items = usable_items(s.inventory@);
    let i = s.battle.unwrap().item_index;
    if i < items.len() { items[i as int].0 } else { items[0].0 }
}

/// The message of an item used.
pub open spec fn used_message(kind: ItemKind, heal: u16) -> Seq<char> {
    "Used "@ + item_label(kind) + "! Restored "@ + dec(heal as nat) + " HP."@
}

/// Using an item: with nothing usable, back to the menu; at full hit
/// points, back to the menu; when the first stack of its kind is empty,
/// back to the menu; otherwise one is used up, the hit points rise (at most
/// to the maximum), the enemy's answer is drawn and waits for its turn,
/// and the active member follows the battle's hit points.
pub open spec fn item_used(o: AppState, n: AppState) -> bool {
    let b = o.battle.unwrap();
    if usable_items(o.inventory@).len() == 0 {
        back_to_menu(o, n, "Your bag is empty."@)
    } else if b.player_hp >= b.player_hp_max {
        back_to_menu(o, n, "HP is already full."@)
    } else {
        let kind = chosen_item(o);
        match stack_of(o.inventory@, kind) {
            Some(i) if o.inventory@[i].qty > 0 => {
                let inv = o.inventory@.update(i, ItemStack { kind, qty: (o.inventory@[i].qty - 1) as u16 });
                let room = (b.player_hp_max - b.player_hp) as u16;
                let heal = if item_heal(kind) < room { item_heal(kind) } else { room };
                let s1 = AppState { inventory: n.inventory, ..o };
                let pending = enemy_blow(s1, b.enemy_level);
                exists|s2: AppState| {
                    &&& n.inventory@ == inv
                    &&& s2.battle matches Some(b2) && b2.message@ == used_message(kind, heal)
                    &&& s2 == (AppState {
                        rng_seed: crate::poketui::battle::rng_step(o.rng_seed),
                        battle: Some(BattleState {
                            player_hp: (b.player_hp + heal) as u16,
                            stage: BattleStage::EnemyTurn,
                            message: s2.battle.unwrap().message,
                            pending_enemy_damage: Some(pending),
                            ..b
                        }),
                        ..s1
                    })
                    &&& #[trigger] active_hp_synced(s2, n)
                }
            },
            _ => back_to_menu(o, n, "No items left."@),
        }
    }
}

/// Whether the enemy's blow and the active member's hit points can be
/// worked out in 16 bits.
pub open spec fn item_fits(s: AppState) -> bool {
    &&& blow_fits(s, s.battle.unwrap().enemy_level)
    &&& crate::poketui::reducer::active_fits(s)
}

fn use_item(state: &mut AppState)
    requires
        old(state).battle is Some,
        item_fits(*old(state)),
    ensures
        item_used(*old(state), *final(state)),
{
    let items = available_items(&state.inventory);
    if items.len() == 0 {
        return_to_menu(state, owned("Your bag is empty."));
        return;
    }
    let (item_index, player_hp, player_hp_max, enemy_level) = match &state.battle {
        Some(b) => (b.item_index, b.player_hp, b.player_hp_max, b.enemy_level),
        None => return,
    };
    let kind = if item_index < items.len() { items[item_index].0 } else { items[0].0 };
    if player_hp >= player_hp_max {
        return_to_menu(state, owned("HP is already full."));
        return;
    }
    if !take_item(&mut state.inventory, kind) {
        return_to_menu(state, owned("No items left."));
        return;
    }
    let ghost s1 = *state;
    let room = player_hp_max.saturating_sub(player_hp);
    let h = kind.heal_amount();
    let heal = if h < room { h } else { room };
    let new_hp = player_hp.saturating_add(heal);
    assert(blow_fits(s1, enemy_level));
    let pending = enemy_damage(state, enemy_level);
    let mut msg = owned("Used ");
    push_str(&mut msg, kind.label());
    push_str(&mut msg, "! Restored ");
    push_str(&mut msg, dec_u64(heal as u64).as_str());
    push_str(&mut msg, " HP.");
    match state.battle.take() {
        Some(mut b) => {
            b.player_hp = new_hp;
            b.stage = BattleStage::EnemyTurn;
            b.message = msg;
            b.pending_enemy_damage = Some(pending);
            state.battle = Some(b);
        },
        None => {},
    }
    let ghost s2 = *state;
    crate::poketui::reducer::sync_active_hp_from_battle(state);
    assert(active_hp_synced(s2, *state));
}

/// The effects of an optional effect.
pub open spec fn effect_list(e: Option<Effect>) -> Seq<Effect> {
    match e {
        Some(x) => seq![x],
        None => seq![],
    }
}

fn outcome_of(e: Option<Effect>) -> (r: Outcome<Effect>)
    ensures
        r.changed,
        r.effects@ == effect_list(e),
{
    match e {
        Some(x) => Outcome::changed_with(x),
        None => Outcome::changed(),
    }
}

/// The next hit of a combo: with none left, back to the menu and its
/// prompt; otherwise the first waiting hit lands, and if it ended the
/// combo the rest are dropped.
pub open spec fn combo_stepped(o: AppState, n: AppState, r: Outcome<Effect>) -> bool {
    let b = o.battle.unwrap();
    &&& r.changed
    &&& if b.combo_hits@.len() == 0 {
        r.effects@.len() == 0 && intro_left(o, n)
    } else {
        exists|s1: AppState, s2: AppState, ended: bool, e: Option<Effect>| {
            &&& s1.battle matches Some(b1) && b1.combo_hits@ == b.combo_hits@.drop_first()
            &&& s1 == (AppState { battle: Some(BattleState { combo_hits: s1.battle.unwrap().combo_hits, ..b }), ..o })
            &&& #[trigger] hit_applied(s1, s2, hit_view(b.combo_hits@[0]), ended, e)
            &&& r.effects@ == effect_list(e)
            &&& if ended {
                match s2.battle {
                    Some(b2) => n.battle matches Some(nb) && nb.combo_hits@.len() == 0 && n == (AppState {
                        battle: Some(BattleState { combo_hits: nb.combo_hits, ..b2 }),
                        ..s2
                    }),
                    None => n == s2,
                }
            } else {
                n == s2
            }
        }
    }
}

fn confirm_combo(state: &mut AppState) -> (r: Outcome<Effect>)
    requires
        old(state).battle is Some,
        can_strike(*old(state)),
    ensures
        combo_stepped(*old(state), *final(state), r),
{
    let empty = match &state.battle {
        Some(b) => b.combo_hits.len() == 0,
        None => true,
    };
    if empty {
        confirm_intro(state);
        return Outcome::changed();
    }
    let mut b = match state.battle.take() {
        Some(b) => b,
        None => return Outcome::changed(),
    };
    let hit = b.combo_hits.remove(0);
    state.battle = Some(b);
    let ghost s1 = *state;
    let (ended, effect) = apply_combo_hit(state, hit);
    let ghost s2 = *state;
    let ghost e = effect;
    if ended {
        match state.battle.take() {
            Some(mut b2) => {
                b2.combo_hits = Vec::new();
                state.battle = Some(b2);
            },
            None => {},
        }
    }
    assert(hit_applied(s1, s2, hit_view(old(state).battle.unwrap().combo_hits@[0]), ended, e));
    outcome_of(effect)
}

/// The enemy's turn: its waiting blow (or one drawn now) lands on the
/// player through the guard; the active member follows the battle's hit
/// points and abilities tick down. If the player's creature faints, the
/// next one that can fight is sent out (back to the menu, with its sprite
/// asked for) or the battle is lost; otherwise back to the menu with the
/// blow shown.
pub open spec fn enemy_turn_taken(o: AppState, n: AppState, r: Outcome<Effect>) -> bool {
    let b = o.battle.unwrap();
    let (damage, s0) = match b.pending_enemy_damage {
        Some(d) => (d, o),
        None => (enemy_blow(o, b.enemy_level), AppState { rng_seed: crate::poketui::battle::rng_step(o.rng_seed), ..o }),
    };
    let b0 = BattleState { pending_enemy_damage: None, ..b };
    let b1 = crate::poketui::strikes::struck(b0, damage);
    let dealt = crate::poketui::strikes::guard_applied(b0, damage).0;
    &&& r.changed
    &&& exists|s2: AppState, s3: AppState| {
        &&& active_hp_synced(AppState { battle: Some(b1), ..s0 }, s2)
        &&& #[trigger] crate::poketui::strikes::cooldowns_ticked(s2, s3)
        &&& if b1.player_hp == 0 {
            match crate::poketui::reducer::next_alive(s3) {
                Some(i) => {
                    let chosen = AppState { active_party_index: i as usize, ..s3 };
                    let name = display_name(s3.party@[i].info.name@);
                    exists|s4: AppState, s5: AppState, s6: AppState, e: Option<Effect>| {
                        &&& #[trigger] crate::poketui::reducer::battle_synced(crate::poketui::reducer::legacy_synced(chosen), s4)
                        &&& staged(s4, s5, BattleStage::Menu)
                        &&& #[trigger] noticed(s5, s6, name + " is sent out!"@)
                        &&& #[trigger] crate::poketui::strikes::sprite_requested(s6, n, e)
                        &&& r.effects@ == effect_list(e)
                    }
                },
                None => {
                    &&& r.effects@.len() == 0
                    &&& n.battle matches Some(nb) && nb.message@ == "You fainted!"@ && n == (AppState {
                        battle: Some(BattleState { stage: BattleStage::Defeat, message: nb.message, ..s3.battle.unwrap() }),
                        ..s3
                    })
                },
            }
        } else {
            exists|s4: AppState| {
                &&& #[trigger] staged(s3, s4, BattleStage::Menu)
                &&& noticed(s4, n, "Wild "@ + display_name(b.enemy_name@) + " hit you for "@ + dec(dealt as nat) + "!"@)
                &&& r.effects@.len() == 0
            }
        }
    }
}

/// Whether the enemy's turn can be worked out in 16 bits and a switch can
/// count round the party.
pub open spec fn turn_fits(s: AppState) -> bool {
    &&& can_strike(s)
    &&& blow_fits(s, s.battle.unwrap().enemy_level)
}

#[verifier::spinoff_prover]
fn confirm_enemy_turn(state: &mut AppState) -> (r: Outcome<Effect>)
    requires
        old(state).battle is Some,
        turn_fits(*old(state)),
    ensures
        enemy_turn_taken(*old(state), *final(state), r),
{
    let (pending, enemy_level, enemy_name) = match &state.battle {
        Some(b) => (b.pending_enemy_damage, b.enemy_level, b.enemy_name.clone()),
        None => return Outcome::changed(),
    };
    let damage = match pending {
        Some(d) => d,
        None => enemy_damage(state, enemy_level),
    };
    match state.battle.take() {
        Some(mut b) => {
            b.pending_enemy_damage = None;
            state.battle = Some(b);
        },
        None => {},
    }
    let dealt = crate::poketui::strikes::take_blow_pub(state, damage);
    let ghost s3 = *state;
    let fainted = match &state.battle {
        Some(b) => b.player_hp == 0,
        None => false,
    };
    if fainted {
        match crate::poketui::reducer::switch_to_next_alive(state) {
            Some(name) => {
                let ghost s4 = *state;
                set_stage(state, BattleStage::Menu);
                let ghost s5 = *state;
                let mut msg = name;
                push_str(&mut msg, " is sent out!");
                notice(state, msg);
                let ghost s6 = *state;
                let e = crate::poketui::strikes::load_player_sprite_for_active(state);
                assert(staged(s4, s5, BattleStage::Menu));
                return outcome_of(e);
            },
            None => {
                match state.battle.take() {
                    Some(mut b) => {
                        b.stage = BattleStage::Defeat;
                        b.message = owned("You fainted!");
                        state.battle = Some(b);
                    },
                    None => {},
                }
                return Outcome::changed();
            },
        }
    }
    set_stage(state, BattleStage::Menu);
    let ghost s4 = *state;
    let mut msg = owned("Wild ");
    push_str(&mut msg, crate::poketui::battle::format_name(enemy_name.as_str()).as_str());
    push_str(&mut msg, " hit you for ");
    push_str(&mut msg, dec_u64(dealt as u64).as_str());
    push_str(&mut msg, "!");
    notice(state, msg);
    assert(staged(s3, s4, BattleStage::Menu));
    Outcome::changed()
}

/// The enemy's answer drawn and waiting for its turn, with `msg` shown.
pub open spec fn enemy_answers(o: AppState, n: AppState, msg: Seq<char>) -> bool {
    let b = o.battle.unwrap();
    n.battle matches Some(nb) && nb.message@ == msg && n == (AppState {
        rng_seed: crate::poketui::battle::rng_step(o.rng_seed),
        battle: Some(BattleState {
            stage: BattleStage::EnemyTurn,
            message: nb.message,
            pending_enemy_damage: Some(enemy_blow(o, b.enemy_level)),
            ..b
        }),
        ..o
    })
}

fn enemy_waits(state: &mut AppState, msg: String)
    requires
        old(state).battle is Some,
        blow_fits(*old(state), old(state).battle.unwrap().enemy_level),
    ensures
        enemy_answers(*old(state), *final(state), msg@),
{
    let level = match &state.battle {
        Some(b) => b.enemy_level,
        None => 5,
    };
    let pending = enemy_damage(state, level);
    match state.battle.take() {
        Some(mut b) => {
            b.stage = BattleStage::EnemyTurn;
            b.message = msg;
            b.pending_enemy_damage = Some(pending);
            state.battle = Some(b);
        },
        None => {},
    }
}

/// What throwing a ball does: not at a boss, not without balls (notices);
/// otherwise a ball is used and a roll under `catch_odds` (of 0 to 99)
/// catches. A catch with three in the party, or before the enemy's data is
/// known, lets the enemy answer; otherwise the creature joins the party at
/// its level (at least 1) with full hit points, the experience of that
/// level and its species' ability, and the battle is won. A miss lets the
/// enemy answer.
pub open spec fn ball_thrown(o: AppState, n: AppState, catch_odds: u8) -> bool {
    let b = o.battle.unwrap();
    if b.kind == crate::poketui::state::BattleKind::Boss {
        noticed(o, n, "You can't catch this Pokemon!"@)
    } else if !(stack_of(o.inventory@, ItemKind::PokeBall) matches Some(i) && o.inventory@[i].qty > 0) {
        noticed(o, n, "No Poke Balls left."@)
    } else {
        let i = stack_of(o.inventory@, ItemKind::PokeBall).unwrap();
        let s1 = AppState { inventory: n.inventory, rng_seed: crate::poketui::battle::rng_step(o.rng_seed), ..o };
        let s1b = AppState { inventory: n.inventory, ..o };
        let roll = crate::poketui::battle::rng_out(o.rng_seed) % 100;
        &&& n.inventory@ == o.inventory@.update(i, ItemStack { kind: ItemKind::PokeBall, qty: (o.inventory@[i].qty - 1) as u16 })
        &&& if roll < catch_odds {
            if o.party@.len() >= 3 {
                enemy_answers(s1, n, "Party full!"@)
            } else {
                match o.enemy_info {
                    Some(info) => {
                        let level = if b.enemy_level < 1 { 1 } else { b.enemy_level };
                        &&& n.party@.len() == o.party@.len() + 1
                        &&& n.party@.drop_last() == o.party@
                        &&& n.party@.last().info == info
                        &&& n.party@.last().level == level
                        &&& n.party@.last().exp == crate::poketui::state::level_exp(level)
                        &&& n.party@.last().hp == crate::poketui::state::hp_formula(info.hp, level)
                        &&& (match crate::poketui::events::ability_for(o, info.name@) {
                            Some(a) => n.party@.last().ability_id matches Some(x) && x@ == a,
                            None => n.party@.last().ability_id is None,
                        })
                        &&& n.party@.last().ability_cd == 0
                        &&& n.battle matches Some(nb) && nb.message@ == "Caught "@ + display_name(b.enemy_name@) + "!"@ && n == (AppState {
                            party: n.party,
                            battle: Some(BattleState { captured: true, stage: BattleStage::Victory, message: nb.message, ..b }),
                            ..s1
                        })
                    },
                    None => enemy_answers(s1, n, "It slipped away!"@),
                }
            }
        } else {
            enemy_answers(s1, n, "It broke free!"@)
        }
    }
}

/// Whether throwing a ball can be worked out in 16 bits.
pub open spec fn ball_fits(s: AppState) -> bool {
    let b = s.battle.unwrap();
    &&& blow_fits(s, b.enemy_level)
    &&& (s.enemy_info matches Some(i) ==> crate::poketui::state::stat_fits(i.hp, if b.enemy_level < 1 { 1 } else { b.enemy_level }))
}

#[verifier::spinoff_prover]
fn throw_ball(state: &mut AppState, catch_odds: u8)
    requires
        old(state).battle is Some,
        ball_fits(*old(state)),
    ensures
        ball_thrown(*old(state), *final(state), catch_odds),
{
    let (kind, enemy_level, enemy_name) = match &state.battle {
        Some(b) => (b.kind, b.enemy_level, b.enemy_name.clone()),
        None => return,
    };
    if kind == crate::poketui::state::BattleKind::Boss {
        notice(state, owned("You can't catch this Pokemon!"));
        return;
    }
    if crate::poketui::reducer::pokeball_count(&state.inventory) == 0 {
        notice(state, owned("No Poke Balls left."));
        return;
    }
    take_item(&mut state.inventory, ItemKind::PokeBall);
    let roll = crate::poketui::reducer::next_rand(state) % 100;
    let ghost s1 = *state;
    if (roll as u64) < (catch_odds as u64) {
        if state.party.len() >= 3 {
            enemy_waits(state, owned("Party full!"));
            return;
        }
        match &state.enemy_info {
            Some(i) => {
                let info = i.clone();
                let level = if enemy_level < 1 { 1 } else { enemy_level };
                let max_hp = crate::poketui::state::calc_hp(info.hp, level);
                let ability_id = crate::poketui::events::ability_id_for_species(state, info.name.as_str());
                let exp = crate::poketui::state::exp_for_level(level);
                state.party.push(PartyMember { info, level, exp, hp: max_hp, ability_id, ability_cd: 0 });
                let mut msg = owned("Caught ");
                push_str(&mut msg, crate::poketui::battle::format_name(enemy_name.as_str()).as_str());
                push_str(&mut msg, "!");
                match state.battle.take() {
                    Some(mut b) => {
                        b.captured = true;
                        b.stage = BattleStage::Victory;
                        b.message = msg;
                        state.battle = Some(b);
                    },
                    None => {},
                }
                assert(state.party@.drop_last() =~= old(state).party@);
            },
            None => {
                enemy_waits(state, owned("It slipped away!"));
            },
        }
    } else {
        enemy_waits(state, owned("It broke free!"));
    }
}

/// The sound of an attack, when one is played.
pub open spec fn sound_list(play: bool) -> Seq<Effect> {
    if play {
        seq![Effect::PlayAttackSound]
    } else {
        seq![]
    }
}

/// Fighting: a sound, and a combo started.
pub open spec fn fought(o: AppState, n: AppState, r: Outcome<Effect>) -> bool {
    exists|e: Option<Effect>| {
        &&& #[trigger] crate::poketui::strikes::combo_started(o, n, None, None, e)
        &&& r.changed
        &&& r.effects@ == sound_list(true) + effect_list(e)
    }
}

fn outcome_with(play: bool, e: Option<Effect>) -> (r: Outcome<Effect>)
    ensures
        r.changed,
        r.effects@ == sound_list(play) + effect_list(e),
{
    let mut effects: Vec<Effect> = Vec::new();
    if play {
        effects.push(Effect::PlayAttackSound);
    }
    match e {
        Some(x) => effects.push(x),
        None => {},
    }
    assert(effects@ =~= sound_list(play) + effect_list(e));
    Outcome::changed_with_many(effects)
}

/// What an ability does before the combo: nothing for damage, healing for
/// a healing one, the guard raised (at most 90 percent, at least one turn)
/// for a guard one.
pub open spec fn ability_applied(s1: AppState, s2: AppState, effect: crate::poketui::scenario::AbilityEffect) -> bool {
    match effect {
        crate::poketui::scenario::AbilityEffect::Damage { power } => s2 == s1,
        crate::poketui::scenario::AbilityEffect::Heal { amount } => crate::poketui::reducer::healed(s1, s2, amount),
        crate::poketui::scenario::AbilityEffect::Guard { reduction_pct, turns } => s2 == (AppState {
            battle: Some(BattleState {
                guard_pct: if reduction_pct < 90 { reduction_pct } else { 90 },
                guard_turns: if turns < 1 { 1 } else { turns },
                ..s1.battle.unwrap()
            }),
            ..s1
        }),
    }
}

/// The damage a damage ability sets (at least 1); none for the others.
pub open spec fn ability_damage(e: crate::poketui::scenario::AbilityEffect) -> Option<u16> {
    match e {
        crate::poketui::scenario::AbilityEffect::Damage { power } => Some(if power < 1 { 1u16 } else { power }),
        _ => None,
    }
}

/// The active member's ability used: none available or still recharging
/// (notices); otherwise it starts recharging, then a damage ability sets
/// the active member's damage (at least 1) and plays the sound, a healing
/// one heals, a guard one raises the guard (at most 90 percent, at least
/// one turn); and a combo starts, the ability named.
pub open spec fn ability_used(o: AppState, n: AppState, r: Outcome<Effect>) -> bool {
    match crate::poketui::events::active_ability(o) {
        None => r.changed && r.effects@.len() == 0 && noticed(o, n, "No ability available."@),
        Some(a) => {
            let m = o.active_spec().unwrap();
            if m.ability_cd > 0 {
                r.changed && r.effects@.len() == 0 && noticed(o, n, "Ability recharging ("@ + dec(m.ability_cd as nat) + ")."@)
            } else {
                exists|s1: AppState, s2: AppState, e: Option<Effect>| {
                    &&& s1.party@ == o.party@.update(o.active_party_index as int, PartyMember { ability_cd: a.cooldown, ..m })
                    &&& s1 == (AppState { party: s1.party, ..o })
                    &&& #[trigger] ability_applied(s1, s2, a.effect)
                    &&& #[trigger] crate::poketui::strikes::combo_started(s2, n, ability_damage(a.effect), Some(a.name@), e)
                    &&& r.changed
                    &&& r.effects@ == sound_list(a.effect is Damage) + effect_list(e)
                }
            }
        },
    }
}

/// Whether a combo, with healing first, can be worked out in 16 bits.
pub open spec fn combo_ready(s: AppState) -> bool {
    &&& crate::poketui::combat::combo_fits(s)
    &&& can_strike(s)
}

proof fn lemma_ready_kept(a: AppState, b: AppState)
    requires
        combo_ready(a),
        b.party@.len() == a.party@.len(),
        forall|i: int| 0 <= i < a.party@.len() ==> (#[trigger] b.party@[i]).info == a.party@[i].info && b.party@[i].level == a.party@[i].level,
        b.active_party_index == a.active_party_index,
        (b.player_info == a.player_info && b.player_level == a.player_level) || (b.active_spec() is Some && b.player_info
            == Some(b.active_spec().unwrap().info) && b.player_level == b.active_spec().unwrap().level),
        b.enemy_info == a.enemy_info,
        b.battle is Some <==> a.battle is Some,
        b.battle is Some ==> b.battle.unwrap().enemy_level == a.battle.unwrap().enemy_level,
    ensures
        combo_ready(b),
{
    assert forall|i: int| 0 <= i < b.party@.len() implies crate::poketui::state::stat_fits(#[trigger] b.party@[i].info.hp, b.party@[i].level) by {
        assert(b.party@[i].info == a.party@[i].info);
    }
    assert forall|i: int| 0 <= i < b.party@.len() implies {
        &&& crate::poketui::state::stat_fits((#[trigger] b.party@[i]).info.speed, b.party@[i].level)
        &&& crate::poketui::state::stat_fits(b.party@[i].info.attack, b.party@[i].level)
    } by {
        assert(b.party@[i].info == a.party@[i].info);
        assert(crate::poketui::state::stat_fits(a.party@[i].info.speed, a.party@[i].level));
    }
    if b.active_spec() is Some {
        let k = b.active_party_index as int;
        assert(b.party@[k].info == a.party@[k].info);
        assert(crate::poketui::state::stat_fits(a.party@[k].info.speed, a.party@[k].level));
    }
    if a.battle is Some {
        assert(crate::poketui::combat::defense_source(b) == crate::poketui::combat::defense_source(a)) by {
            if b.active_spec() is Some {
                assert(b.party@[b.active_party_index as int].info == a.party@[a.active_party_index as int].info);
            }
        }
    }
}

/// Starts the active member's ability recharging.
fn recharge(state: &mut AppState, cooldown: u8)
    requires
        old(state).active_party_index < old(state).party@.len(),
        combo_ready(*old(state)),
    ensures
        final(state).party@ == old(state).party@.update(
            old(state).active_party_index as int,
            PartyMember { ability_cd: cooldown, ..old(state).party@[old(state).active_party_index as int] },
        ),
        *final(state) == (AppState { party: final(state).party, ..*old(state) }),
        combo_ready(*final(state)),
{
    let i = state.active_party_index;
    let mut m = state.party[i].clone();
    m.ability_cd = cooldown;
    state.party.set(i, m);
    proof {
        lemma_ready_kept(*old(state), *state);
    }
}

/// Does what an ability does before its combo.
fn apply_ability_effect(state: &mut AppState, effect: crate::poketui::scenario::AbilityEffect)
    requires
        old(state).battle is Some,
        combo_ready(*old(state)),
    ensures
        ability_applied(*old(state), *final(state), effect),
        combo_ready(*final(state)),
{
    match effect {
        crate::poketui::scenario::AbilityEffect::Damage { power } => {},
        crate::poketui::scenario::AbilityEffect::Heal { amount } => {
            crate::poketui::reducer::heal_active_member(state, amount);
        },
        crate::poketui::scenario::AbilityEffect::Guard { reduction_pct, turns } => {
            match state.battle.take() {
                Some(mut b) => {
                    b.guard_pct = if reduction_pct < 90 { reduction_pct } else { 90 };
                    b.guard_turns = if turns < 1 { 1 } else { turns };
                    state.battle = Some(b);
                },
                None => {},
            }
        },
    }
    proof {
        lemma_ready_kept(*old(state), *state);
    }
}

#[verifier::spinoff_prover]
fn use_ability(state: &mut AppState) -> (r: Outcome<Effect>)
    requires
        old(state).battle is Some,
        combo_ready(*old(state)),
    ensures
        ability_used(*old(state), *final(state), r),
{
    let ability = crate::poketui::events::active_ability_spec(state);
    let a = match ability {
        Some(a) => a,
        None => {
            notice(state, owned("No ability available."));
            return Outcome::changed();
        },
    };
    let i = state.active_party_index;
    let cd = state.party[i].ability_cd;
    if cd > 0 {
        let mut msg = owned("Ability recharging (");
        push_str(&mut msg, dec_u64(cd as u64).as_str());
        push_str(&mut msg, ").");
        notice(state, msg);
        return Outcome::changed();
    }
    recharge(state, a.cooldown);
    let ghost s1 = *state;
    apply_ability_effect(state, a.effect);
    let ghost s2 = *state;
    let play = match a.effect {
        crate::poketui::scenario::AbilityEffect::Damage { power } => true,
        _ => false,
    };
    let ad: Option<u16> = match a.effect {
        crate::poketui::scenario::AbilityEffect::Damage { power } => Some(if power < 1 { 1 } else { power }),
        _ => None,
    };
    let e = crate::poketui::strikes::start_combo_attack(state, ad, Some(a.name.as_str()));
    assert(ability_applied(s1, s2, a.effect));
    outcome_with(play, e)
}

/// Whether every step of a battle can be worked out in 16 bits and a
/// switch can count round the party.
pub open spec fn battle_fits(s: AppState) -> bool {
    &&& combo_ready(s)
    &&& crate::poketui::ending::can_end_battle(s)
    &&& (s.battle matches Some(b) ==> {
        &&& blow_fits(s, b.enemy_level)
        &&& (s.enemy_info matches Some(i) ==> crate::poketui::state::stat_fits(i.hp, if b.enemy_level < 1 { 1 } else { b.enemy_level }))
    })
}

/// What confirming does in each stage of a battle; without a battle,
/// nothing.
pub open spec fn confirmed(o: AppState, n: AppState, catch_odds: u8, r: Outcome<Effect>) -> bool {
    match o.battle {
        None => n == o && !r.changed && r.effects@.len() == 0,
        Some(b) => match b.stage {
            BattleStage::Intro => r.changed && r.effects@.len() == 0 && intro_left(o, n),
            BattleStage::Menu => if b.menu_index == 0 {
                fought(o, n, r)
            } else if b.menu_index == 1 {
                r.changed && r.effects@.len() == 0 && bag_opened(o, n)
            } else if b.menu_index == 2 {
                r.changed && r.effects@.len() == 0 && ball_thrown(o, n, catch_odds)
            } else if b.menu_index == 3 {
                ability_used(o, n, r)
            } else {
                r.changed && r.effects@.len() == 0 && ran(o, n)
            },
            BattleStage::ItemMenu => r.changed && r.effects@.len() == 0 && item_used(o, n),
            BattleStage::PlayerCombo => combo_stepped(o, n, r),
            BattleStage::EnemyTurn => enemy_turn_taken(o, n, r),
            _ => r.changed && r.effects@.len() == 0 && crate::poketui::ending::battle_ended(o, n),
        },
    }
}

/// Confirms the current choice of the battle. `catch_odds` is how many of
/// the hundred rolls 0 to 99 catch the enemy at its current hit points;
/// only a ball thrown reads it.
pub fn battle_confirm(state: &mut AppState, catch_odds: u8) -> (r: Outcome<Effect>)
    requires
        battle_fits(*old(state)),
    ensures
        confirmed(*old(state), *final(state), catch_odds, r),
{
    let (stage, menu_index) = match &state.battle {
        Some(b) => (b.stage, b.menu_index),
        None => return Outcome::unchanged(),
    };
    match stage {
        BattleStage::Intro => {
            confirm_intro(state);
            Outcome::changed()
        },
        BattleStage::Menu => {
            if menu_index == 0 {
                let e = crate::poketui::strikes::start_combo_attack(state, None, None);
                outcome_with(true, e)
            } else if menu_index == 1 {
                open_bag(state);
                Outcome::changed()
            } else if menu_index == 2 {
                throw_ball(state, catch_odds);
                Outcome::changed()
            } else if menu_index == 3 {
                use_ability(state)
            } else {
                run_away(state);
                Outcome::changed()
            }
        },
        BattleStage::ItemMenu => {
            use_item(state);
            Outcome::changed()
        },
        BattleStage::PlayerCombo => confirm_combo(state),
        BattleStage::EnemyTurn => confirm_enemy_turn(state),
        _ => crate::poketui::ending::end_battle(state),
    }
}

/// Using a potion in battle restores hit points: a Potion 20 and a Super
/// Potion 50, never past the maximum, and the battle says how many were
/// restored. (This is for a battle whose bag holds something usable, whose
/// hit points are below the maximum, and whose chosen item is in stock.)
pub proof fn law_potion_restores(o: AppState, n: AppState)
    requires
        o.battle is Some,
        item_used(o, n),
        usable_items(o.inventory@).len() > 0,
        o.battle.unwrap().player_hp < o.battle.unwrap().player_hp_max,
        stack_of(o.inventory@, chosen_item(o)) matches Some(i) && o.inventory@[i].qty > 0,
    ensures
        ({
            let b = o.battle.unwrap();
            let kind = chosen_item(o);
            let amount: int = if kind == ItemKind::SuperPotion { 50 } else if kind == ItemKind::Potion { 20 } else { 0 };
            let restored: int = if b.player_hp + amount <= b.player_hp_max { amount } else { b.player_hp_max - b.player_hp };
            &&& n.battle matches Some(nb) && nb.player_hp == b.player_hp + restored
            &&& n.battle.unwrap().message@ == "Used "@ + item_label(kind) + "! Restored "@ + dec(restored as nat) + " HP."@
        }),
{
}

} // verus!
