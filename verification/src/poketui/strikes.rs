//! Hits landing: the enemy's blows (softened by a guard) and the fainting
//! and switching they cause, the player's blows and the enemy fainting.
use vstd::prelude::*;
use crate::poketui::action::Effect;
use crate::poketui::battle::{display_name, guarded};
use crate::poketui::combat::{build_combo_hits, combo_built, combo_fits, hit_view, hit_views, label_view, HitView};
use crate::poketui::reducer::{
    active_fits, active_hp_synced, battle_message_set, battle_synced, legacy_synced, next_alive, party_fits,
    switch_to_next_alive, sync_active_hp_from_battle, tick_ability_cooldowns,
};
use crate::poketui::state::{AppState, BattleKind, BattleStage, BattleState, ComboHit, PartyMember, SpriteTarget, TurnActor};
use crate::text::{dec, dec_u64, owned, push_str};

verus! {

/// The sprite shown for a creature: the animated one, else the still one.
pub open spec fn sprite_url_spec(i: crate::poketui::state::PokemonInfo) -> Option<String> {
    match i.sprite_front_animated {
        Some(u) => Some(u),
        None => i.sprite_front_default,
    }
}

pub fn sprite_url_for(info: &crate::poketui::state::PokemonInfo) -> (r: Option<String>)
    ensures
        r == sprite_url_spec(*info),
{
    match &info.sprite_front_animated {
        Some(u) => Some(u.clone()),
        None => crate::poketui::state::copy_text(&info.sprite_front_default),
    }
}

/// Asking for the active member's sprite: the player's sprite starts
/// loading when the member has one to show.
pub open spec fn sprite_requested(o: AppState, n: AppState, e: Option<Effect>) -> bool {
    match o.active_spec() {
        Some(m) => match sprite_url_spec(m.info) {
            Some(url) => {
                &&& e matches Some(Effect::LoadSprite { target, url: u }) && target == SpriteTarget::Player && u == url
                &&& n == (AppState { player_sprite: crate::poketui::state::SpriteState { loading: true, ..o.player_sprite }, ..o })
            },
            None => e is None && n == o,
        },
        None => e is None && n == o,
    }
}

pub fn load_player_sprite_for_active(state: &mut AppState) -> (e: Option<Effect>)
    ensures
        sprite_requested(*old(state), *final(state), e),
{
    if state.active_party_index >= state.party.len() {
        return None;
    }
    let url = sprite_url_for(&state.party[state.active_party_index].info);
    match url {
        Some(u) => {
            state.player_sprite.loading = true;
            Some(Effect::LoadSprite { target: SpriteTarget::Player, url: u })
        },
        None => None,
    }
}

/// The hits left after the member at `dead` fainted: its own are dropped.
pub open spec fn without_member(hits: Seq<ComboHit>, dead: usize) -> Seq<ComboHit>
    decreases hits.len(),
{
    if hits.len() == 0 {
        seq![]
    } else if hits.last().actor == (TurnActor::Player { member_index: dead }) {
        without_member(hits.drop_last(), dead)
    } else {
        without_member(hits.drop_last(), dead).push(hits.last())
    }
}

fn drop_member_hits(hits: &Vec<ComboHit>, dead: usize) -> (r: Vec<ComboHit>)
    ensures
        r@ == without_member(hits@, dead),
{
    let mut r: Vec<ComboHit> = Vec::new();
    let mut i: usize = 0;
    while i < hits.len()
        invariant
            i <= hits@.len(),
            r@ == without_member(hits@.take(i as int), dead),
        decreases hits.len() - i,
    {
        assert(hits@.take(i + 1).drop_last() =~= hits@.take(i as int));
        if hits[i].actor != (TurnActor::Player { member_index: dead }) {
            r.push(hits[i].clone());
        }
        i = i + 1;
    }
    assert(hits@.take(hits@.len() as int) =~= hits@);
    r
}

/// A guard softening a blow: the damage it lets through and the guard left.
pub open spec fn guard_applied(b: BattleState, damage: u16) -> (u16, u8, u8) {
    if b.guard_turns > 0 && b.guard_pct > 0 {
        let turns = (b.guard_turns - 1) as u8;
        (guarded(damage, b.guard_pct), if turns == 0 { 0 } else { b.guard_pct }, turns)
    } else {
        (damage, b.guard_pct, b.guard_turns)
    }
}

/// The battle after a blow of `damage` on the player, the guard applied.
pub open spec fn struck(b: BattleState, damage: u16) -> BattleState {
    let (d, pct, turns) = guard_applied(b, damage);
    BattleState { guard_pct: pct, guard_turns: turns, player_hp: if b.player_hp > d { (b.player_hp - d) as u16 } else { 0 }, ..b }
}

/// The party with every ability a turn closer to ready.
pub open spec fn cooldowns_ticked(o: AppState, n: AppState) -> bool {
    &&& n.party@.len() == o.party@.len()
    &&& forall|i: int|
        0 <= i < o.party@.len() ==> #[trigger] n.party@[i] == (PartyMember {
            ability_cd: if o.party@[i].ability_cd > 0 { (o.party@[i].ability_cd - 1) as u8 } else { 0 },
            ..o.party@[i]
        })
    &&& n == (AppState { party: n.party, ..o })
}

/// The message of an enemy's blow.
pub open spec fn blow_message(kind: BattleKind, enemy: Seq<char>, damage: u16) -> Seq<char> {
    (if kind == BattleKind::Boss { "Boss "@ } else { "Wild "@ }) + display_name(enemy) + " hit you for "@ + dec(damage as nat) + "!"@
}

/// The message of a player's blow.
pub open spec fn strike_message(h: HitView) -> Seq<char> {
    match h.3 {
        Some(ab) => if h.4 {
            h.1 + " used "@ + ab + " for "@ + dec(h.2 as nat) + "!"@
        } else {
            h.1 + " used "@ + ab + "! "@ + h.1 + " hit for "@ + dec(h.2 as nat) + "!"@
        },
        None => h.1 + " hit for "@ + dec(h.2 as nat) + "!"@,
    }
}

/// Whether the member at `idx` (or, with an empty party, the player in
/// battle) can still strike.
pub open spec fn striker_alive(s: AppState, idx: usize) -> bool {
    if s.party@.len() == 0 {
        s.battle.unwrap().player_hp > 0
    } else {
        idx < s.party@.len() && s.party@[idx as int].hp > 0
    }
}

/// What a hit does, and whether it ended the combo (the enemy or the
/// player down for good), with the effect it asks for.
pub open spec fn hit_applied(o: AppState, n: AppState, h: HitView, ended: bool, e: Option<Effect>) -> bool {
    match o.battle {
        None => n == o && !ended && e is None,
        Some(b) => match h.0 {
            TurnActor::Enemy => {
                let b1 = struck(b, h.2);
                let dealt = guard_applied(b, h.2).0;
                let msg = blow_message(b.kind, b.enemy_name@, dealt);
                let s1 = AppState { battle: Some(b1), ..o };
                exists|s2: AppState, s3: AppState| {
                    &&& #[trigger] active_hp_synced(s1, s2)
                    &&& #[trigger] cooldowns_ticked(s2, s3)
                    &&& if b1.player_hp != 0 {
                        !ended && e is None && battle_message_set(s3, n, msg)
                    } else {
                        match next_alive(s3) {
                            Some(i) => {
                                let chosen = AppState { active_party_index: i as usize, ..s3 };
                                let name = display_name(s3.party@[i].info.name@);
                                exists|s4: AppState, nb: BattleState| {
                                    &&& #[trigger] battle_synced(legacy_synced(chosen), s4)
                                    &&& s4.battle == Some(nb)
                                    &&& !ended
                                    &&& #[trigger] sprite_requested(
                                        AppState {
                                            battle: Some(BattleState {
                                                combo_hits: n.battle.unwrap().combo_hits,
                                                message: n.battle.unwrap().message,
                                                ..nb
                                            }),
                                            ..s4
                                        },
                                        n,
                                        e,
                                    )
                                    &&& n.battle.unwrap().combo_hits@ == without_member(nb.combo_hits@, s3.active_party_index)
                                    &&& n.battle.unwrap().message@ == msg + " "@ + name + " is sent out!"@
                                }
                            },
                            None => {
                                &&& ended && e is None
                                &&& n.battle matches Some(nb) && nb.message@ == msg + " You fainted!"@ && n == (AppState {
                                    battle: Some(BattleState { stage: BattleStage::Defeat, message: nb.message, ..s3.battle.unwrap() }),
                                    ..s3
                                })
                            },
                        }
                    }
                }
            },
            TurnActor::Player { member_index } => {
                if !striker_alive(o, member_index) {
                    n == o && !ended && e is None
                } else {
                    let hp = if b.enemy_hp > h.2 { (b.enemy_hp - h.2) as u16 } else { 0 };
                    let msg = strike_message(h);
                    &&& e is None
                    &&& ended == (hp == 0)
                    &&& n.battle matches Some(nb) && n == (AppState {
                        battle: Some(BattleState {
                            enemy_hp: hp,
                            stage: if hp == 0 { BattleStage::Victory } else { b.stage },
                            message: nb.message,
                            ..b
                        }),
                        ..o
                    }) && nb.message@ == if hp == 0 { msg + " "@ + display_name(b.enemy_name@) + " fainted!"@ } else { msg }
                }
            },
        },
    }
}

/// The prefix naming the enemy in messages.
fn kind_prefix(kind: BattleKind) -> (s: &'static str)
    ensures
        s@ == if kind == BattleKind::Boss { "Boss "@ } else { "Wild "@ },
{
    match kind {
        BattleKind::Boss => "Boss ",
        BattleKind::Wild => "Wild ",
    }
}

/// Whether every member fits, and a switch can count round the party.
pub open spec fn can_strike(s: AppState) -> bool {
    &&& party_fits(s)
    &&& s.active_party_index + s.party@.len() <= usize::MAX
}

proof fn lemma_fits_after_tick(a: AppState, b: AppState)
    requires
        party_fits(a),
        cooldowns_ticked(a, b),
    ensures
        party_fits(b),
        b.active_party_index == a.active_party_index,
{
    assert forall|i: int| 0 <= i < b.party@.len() implies crate::poketui::state::stat_fits(#[trigger] b.party@[i].info.hp, b.party@[i].level) by {
        assert(b.party@[i].info == a.party@[i].info && b.party@[i].level == a.party@[i].level);
    }
}

proof fn lemma_fits_after_sync(a: AppState, b: AppState)
    requires
        party_fits(a),
        active_hp_synced(a, b),
    ensures
        party_fits(b),
        b.active_party_index == a.active_party_index,
        b.party@.len() == a.party@.len(),
{
    if b != a {
        assert forall|i: int| 0 <= i < b.party@.len() implies crate::poketui::state::stat_fits(#[trigger] b.party@[i].info.hp, b.party@[i].level) by {
            assert(b.party@[i].info == a.party@[i].info && b.party@[i].level == a.party@[i].level);
        }
    }
}

/// A blow of `damage` taken: the guard applied, the battle's hit points
/// lowered, the active member following them, and abilities a turn closer
/// to ready; the result is the damage let through.
fn take_blow(state: &mut AppState, damage: u16) -> (dealt: u16)
    requires
        can_strike(*old(state)),
        old(state).battle is Some,
    ensures
        dealt == guard_applied(old(state).battle.unwrap(), damage).0,
        exists|s2: AppState| active_hp_synced(AppState { battle: Some(struck(old(state).battle.unwrap(), damage)), ..*old(state) }, s2) && #[trigger] cooldowns_ticked(s2, *final(state)),
        final(state).battle == Some(struck(old(state).battle.unwrap(), damage)),
        can_strike(*final(state)),
{
    let mut b = match state.battle.take() {
        Some(b) => b,
        None => return 0,
    };
    let mut dealt = damage;
    if b.guard_turns > 0 && b.guard_pct > 0 {
        dealt = crate::poketui::battle::guard_damage(damage, b.guard_pct);
        b.guard_turns = b.guard_turns - 1;
        if b.guard_turns == 0 {
            b.guard_pct = 0;
        }
    }
    b.player_hp = b.player_hp.saturating_sub(dealt);
    state.battle = Some(b);
    let ghost s1 = *state;
    sync_active_hp_from_battle(state);
    let ghost s2 = *state;
    proof {
        lemma_fits_after_sync(s1, s2);
    }
    tick_ability_cooldowns(&mut state.party);
    assert(cooldowns_ticked(s2, *state));
    proof {
        lemma_fits_after_tick(s2, *state);
    }
    dealt
}

/// The player's creature fainted: the next one that can fight is sent out
/// (its sprite asked for), or the battle is lost.
fn after_faint(state: &mut AppState, message: String) -> (r: (bool, Option<Effect>))
    requires
        can_strike(*old(state)),
        old(state).battle is Some,
    ensures
        match next_alive(*old(state)) {
            Some(i) => {
                let chosen = AppState { active_party_index: i as usize, ..*old(state) };
                let name = display_name(old(state).party@[i].info.name@);
                exists|s4: AppState, nb: BattleState| {
                    &&& #[trigger] battle_synced(legacy_synced(chosen), s4)
                    &&& s4.battle == Some(nb)
                    &&& !r.0
                    &&& #[trigger] sprite_requested(
                        AppState {
                            battle: Some(BattleState {
                                combo_hits: final(state).battle.unwrap().combo_hits,
                                message: final(state).battle.unwrap().message,
                                ..nb
                            }),
                            ..s4
                        },
                        *final(state),
                        r.1,
                    )
                    &&& final(state).battle.unwrap().combo_hits@ == without_member(nb.combo_hits@, old(state).active_party_index)
                    &&& final(state).battle.unwrap().message@ == message@ + " "@ + name + " is sent out!"@
                }
            },
            None => {
                &&& r.0 && r.1 is None
                &&& final(state).battle matches Some(nb) && nb.message@ == message@ + " You fainted!"@ && *final(state) == (AppState {
                    battle: Some(BattleState { stage: BattleStage::Defeat, message: nb.message, ..old(state).battle.unwrap() }),
                    ..*old(state)
                })
            },
        },
{
    let mut message = message;
    let dead = state.active_party_index;
    match switch_to_next_alive(state) {
        Some(name) => {
            let ghost s4 = *state;
            let mut nb = match state.battle.take() {
                Some(x) => x,
                None => {
                    assert(false);
                    return (false, None);
                },
            };
            let ghost nb0 = nb;
            nb.combo_hits = drop_member_hits(&nb.combo_hits, dead);
            push_str(&mut message, " ");
            push_str(&mut message, name.as_str());
            push_str(&mut message, " is sent out!");
            nb.message = message;
            state.battle = Some(nb);
            let ghost s5 = *state;
            let e = load_player_sprite_for_active(state);
            assert(s5 == (AppState {
                battle: Some(BattleState { combo_hits: state.battle.unwrap().combo_hits, message: state.battle.unwrap().message, ..nb0 }),
                ..s4
            }));
            (false, e)
        },
        None => {
            let mut nb = match state.battle.take() {
                Some(x) => x,
                None => {
                    assert(false);
                    return (false, None);
                },
            };
            nb.stage = BattleStage::Defeat;
            push_str(&mut message, " You fainted!");
            nb.message = message;
            state.battle = Some(nb);
            (true, None)
        },
    }
}

/// Lands an enemy blow.
#[verifier::spinoff_prover]
fn enemy_strikes(state: &mut AppState, hit: &ComboHit) -> (r: (bool, Option<Effect>))
    requires
        can_strike(*old(state)),
        old(state).battle is Some,
        hit.actor == TurnActor::Enemy,
    ensures
        hit_applied(*old(state), *final(state), hit_view(*hit), r.0, r.1),
{
    let (kind, enemy_name) = match &state.battle {
        Some(b) => (b.kind, b.enemy_name.clone()),
        None => return (false, None),
    };
    let dealt = take_blow(state, hit.damage);
    let ghost s3 = *state;
    let fainted = match &state.battle {
        Some(b) => b.player_hp == 0,
        None => false,
    };
    let mut message = owned(kind_prefix(kind));
    push_str(&mut message, crate::poketui::battle::format_name(enemy_name.as_str()).as_str());
    push_str(&mut message, " hit you for ");
    push_str(&mut message, dec_u64(dealt as u64).as_str());
    push_str(&mut message, "!");
    if fainted {
        return after_faint(state, message);
    }
    crate::poketui::reducer::set_battle_message(state, message);
    (false, None)
}

/// Lands a player's blow.
fn player_strikes(state: &mut AppState, hit: &ComboHit, member_index: usize) -> (r: (bool, Option<Effect>))
    requires
        old(state).battle is Some,
        hit.actor == (TurnActor::Player { member_index }),
    ensures
        hit_applied(*old(state), *final(state), hit_view(*hit), r.0, r.1),
{
    let alive = if state.party.len() == 0 {
        match &state.battle {
            Some(b) => b.player_hp > 0,
            None => false,
        }
    } else {
        member_index < state.party.len() && state.party[member_index].hp > 0
    };
    if !alive {
        return (false, None);
    }
    let mut b = match state.battle.take() {
        Some(b) => b,
        None => return (false, None),
    };
    let hp = b.enemy_hp.saturating_sub(hit.damage);
    b.enemy_hp = hp;
    let mut message = hit.name.clone();
    let dmg = dec_u64(hit.damage as u64);
    match &hit.ability_name {
        Some(ab) => {
            if hit.ability_damage {
                push_str(&mut message, " used ");
                push_str(&mut message, ab.as_str());
                push_str(&mut message, " for ");
                push_str(&mut message, dmg.as_str());
                push_str(&mut message, "!");
            } else {
                push_str(&mut message, " used ");
                push_str(&mut message, ab.as_str());
                push_str(&mut message, "! ");
                push_str(&mut message, hit.name.as_str());
                push_str(&mut message, " hit for ");
                push_str(&mut message, dmg.as_str());
                push_str(&mut message, "!");
            }
        },
        None => {
            push_str(&mut message, " hit for ");
            push_str(&mut message, dmg.as_str());
            push_str(&mut message, "!");
        },
    }
    if hp == 0 {
        push_str(&mut message, " ");
        push_str(&mut message, crate::poketui::battle::format_name(b.enemy_name.as_str()).as_str());
        push_str(&mut message, " fainted!");
        b.stage = BattleStage::Victory;
        b.message = message;
        state.battle = Some(b);
        return (true, None);
    }
    b.message = message;
    state.battle = Some(b);
    (false, None)
}

/// Lands one hit of a combo.
pub fn apply_combo_hit(state: &mut AppState, hit: ComboHit) -> (r: (bool, Option<Effect>))
    requires
        can_strike(*old(state)),
    ensures
        hit_applied(*old(state), *final(state), hit_view(hit), r.0, r.1),
{
    if state.battle.is_none() {
        return (false, None);
    }
    match hit.actor {
        TurnActor::Enemy => enemy_strikes(state, &hit),
        TurnActor::Player { member_index } => player_strikes(state, &hit, member_index),
    }
}

/// What starting a combo does: the hits drawn; with none, the battle is
/// lost as no one can fight; otherwise the first lands, and unless that
/// ended the combo the rest wait their turn.
pub open spec fn combo_started(o: AppState, n: AppState, ad: Option<u16>, an: Option<Seq<char>>, e: Option<Effect>) -> bool {
    exists|s1: AppState, hits: Seq<HitView>| {
        &&& #[trigger] combo_built(o, s1, ad, an, hits)
        &&& if hits.len() == 0 {
            &&& e is None
            &&& match s1.battle {
                Some(b) => n.battle matches Some(nb) && nb.message@ == "No one can fight!"@ && n == (AppState {
                    battle: Some(BattleState { stage: BattleStage::Defeat, message: nb.message, ..b }),
                    ..s1
                }),
                None => n == s1,
            }
        } else {
            exists|s2: AppState, ended: bool| {
                &&& #[trigger] hit_applied(s1, s2, hits[0], ended, e)
                &&& match s2.battle {
                    Some(b2) => n.battle matches Some(nb) && n == (AppState {
                        battle: Some(BattleState {
                            stage: if ended { b2.stage } else { BattleStage::PlayerCombo },
                            combo_hits: nb.combo_hits,
                            ..b2
                        }),
                        ..s2
                    }) && hit_views(nb.combo_hits@) == if ended { seq![] } else { hits.drop_first() },
                    None => n == s2,
                }
            }
        }
    }
}

proof fn lemma_built_keeps(o: AppState, n: AppState, ad: Option<u16>, an: Option<Seq<char>>, hits: Seq<HitView>)
    requires
        combo_built(o, n, ad, an, hits),
        can_strike(o),
    ensures
        can_strike(n),
        n.battle == o.battle,
{
}

/// Starts a combo: the first hit lands at once.
pub fn start_combo_attack(state: &mut AppState, ad: Option<u16>, an: Option<&str>) -> (e: Option<Effect>)
    requires
        combo_fits(*old(state)),
        can_strike(*old(state)),
    ensures
        combo_started(*old(state), *final(state), ad, label_view(an), e),
{
    let mut hits = build_combo_hits(state, ad, an);
    let ghost s1 = *state;
    let ghost hv = hit_views(hits@);
    proof {
        lemma_built_keeps(*old(state), s1, ad, label_view(an), hv);
    }
    if hits.len() == 0 {
        match state.battle.take() {
            Some(mut b) => {
                b.stage = BattleStage::Defeat;
                b.message = owned("No one can fight!");
                state.battle = Some(b);
            },
            None => {},
        }
        return None;
    }
    let first = hits.remove(0);
    assert(hit_view(first) == hv[0]);
    assert(hit_views(hits@) =~= hv.drop_first());
    let (ended, effect) = apply_combo_hit(state, first);
    let ghost s2 = *state;
    match state.battle.take() {
        Some(mut b) => {
            b.combo_hits = Vec::new();
            if !ended {
                b.stage = BattleStage::PlayerCombo;
                b.combo_hits = hits;
            }
            if b.stage == BattleStage::Victory || b.stage == BattleStage::Defeat {
                b.combo_hits = Vec::new();
            }
            assert(hit_views(b.combo_hits@) =~= if ended { Seq::<HitView>::empty() } else { hv.drop_first() });
            state.battle = Some(b);
        },
        None => {},
    }
    assert(hit_applied(s1, s2, hv[0], ended, effect));
    effect
}

/// A blow taken, as the enemy's turn lands it.
pub fn take_blow_pub(state: &mut AppState, damage: u16) -> (dealt: u16)
    requires
        can_strike(*old(state)),
        old(state).battle is Some,
    ensures
        dealt == guard_applied(old(state).battle.unwrap(), damage).0,
        exists|s2: AppState| active_hp_synced(AppState { battle: Some(struck(old(state).battle.unwrap(), damage)), ..*old(state) }, s2) && #[trigger] cooldowns_ticked(s2, *final(state)),
        final(state).battle == Some(struck(old(state).battle.unwrap(), damage)),
        can_strike(*final(state)),
{
    take_blow(state, damage)
}

} // verus!
