//! The end of a battle: wins counted, the relic and the boss, experience
//! and levels, the party healed after a defeat, and the walk back.
use vstd::prelude::*;
use crate::outcome::Outcome;
use crate::poketui::action::Effect;
use crate::poketui::battle::display_name;
use crate::poketui::events::{defeat_recorded, record_defeat};
use crate::poketui::reducer::{
    award_exp, exp_awarded, legacy_synced, member_max_hp, message_pushed, party_fits, push_message,
    sync_active_hp_from_battle, sync_legacy_from_active,
};
use crate::poketui::state::{
    stat_fits, level_or_one, AppState, BattleKind, BattleStage, BattleState, GameMode, PartyMember, MAX_LEVEL,
};
use crate::text::{dec, dec_u64, owned, push_str};

verus! {

/// Wild wins that earn the relic.
pub const RELIC_WINS: u16 = 3;

/// A win counted: wild wins go up by one (saturating), and reaching three
/// without the relic earns it; the result says whether it was earned now.
pub open spec fn win_counted(o: AppState, n: AppState, kind: BattleKind, relic: bool) -> bool {
    if kind == BattleKind::Wild {
        let wins = if o.wild_wins == u16::MAX { u16::MAX } else { (o.wild_wins + 1) as u16 };
        &&& relic == (wins == RELIC_WINS && !o.has_relic)
        &&& n == (AppState { wild_wins: wins, has_relic: o.has_relic || relic, ..o })
    } else {
        !relic && n == o
    }
}

fn count_win(state: &mut AppState, kind: BattleKind) -> (relic: bool)
    ensures
        win_counted(*old(state), *final(state), kind, relic),
{
    if kind == BattleKind::Wild {
        state.wild_wins = state.wild_wins.saturating_add(1);
        if state.wild_wins == RELIC_WINS && !state.has_relic {
            state.has_relic = true;
            return true;
        }
    }
    false
}

/// Whether the player's hit point formula stays within 16 bits up to the
/// highest level (or the current one, if above).
pub open spec fn hp_fits_to_max(s: AppState) -> bool {
    match s.active_spec() {
        Some(m) => stat_fits(m.info.hp, if m.level > MAX_LEVEL { m.level } else { MAX_LEVEL }),
        None => match s.player_info {
            Some(i) => stat_fits(i.hp, if s.player_level > MAX_LEVEL { s.player_level } else { MAX_LEVEL }),
            None => true,
        },
    }
}

proof fn lemma_fits_lower(base: u16, hi: u8, lo: u8)
    requires
        stat_fits(base, hi),
        lo <= hi,
    ensures
        stat_fits(base, lo),
{
    assert((2 * base + 31) * level_or_one(lo) <= (2 * base + 31) * level_or_one(hi)) by (nonlinear_arith)
        requires
            level_or_one(lo) <= level_or_one(hi),
            2 * base + 31 >= 0,
    ;
}

/// The message of a won wild battle.
pub open spec fn win_message(name: Seq<char>, gained: u32, levels: u8, level: u8) -> Seq<char> {
    display_name(name) + " won! Gained "@ + dec(gained as nat) + " XP."@ + if levels > 0 {
        " Leveled up to "@ + dec(level as nat) + "!"@
    } else {
        seq![]
    }
}

/// What a won wild battle gives: experience and levels, the hit points the
/// new maximum adds (up to it), the stand-in fields mirroring the member;
/// the result is the message.
pub open spec fn win_rewarded(o: AppState, n: AppState, enemy_level: u8, msg: Seq<char>) -> bool {
    exists|a: AppState, r: (u32, u8)| {
        &&& #[trigger] exp_awarded(o, a, enemy_level, r)
        &&& msg == win_message(a.name_spec(), r.0, r.1, a.level_spec())
        &&& match a.active_spec() {
            Some(m) => {
                let old_max = o.max_hp_spec();
                let new_max = a.max_hp_spec();
                let bonus = if new_max >= old_max { new_max - old_max } else { 0 };
                let raised = if m.hp + bonus > u16::MAX { u16::MAX as int } else { m.hp + bonus };
                let hp = if raised < new_max { raised } else { new_max };
                exists|b: AppState| {
                    &&& b.party@ == a.party@.update(a.active_party_index as int, PartyMember { hp: hp as u16, ..m })
                    &&& b == (AppState { party: b.party, ..a })
                    &&& n == #[trigger] legacy_synced(b)
                }
            },
            None => n == legacy_synced(a),
        }
    }
}

fn reward_win(state: &mut AppState, enemy_level: u8) -> (msg: String)
    requires
        hp_fits_to_max(*old(state)),
        old(state).active_spec() matches Some(m) ==> m.level <= MAX_LEVEL,
        old(state).active_spec() is None ==> old(state).player_level <= MAX_LEVEL,
    ensures
        win_rewarded(*old(state), *final(state), enemy_level, msg@),
{
    proof {
        match old(state).active_spec() {
            Some(m) => lemma_fits_lower(m.info.hp, MAX_LEVEL, m.level),
            None => match old(state).player_info {
                Some(i) => lemma_fits_lower(i.hp, MAX_LEVEL, old(state).player_level),
                None => {},
            },
        }
    }
    let old_max = state.player_max_hp();
    let ghost old_max_v = old_max;
    let ghost o = *state;
    let r = award_exp(state, enemy_level);
    let ghost a = *state;
    proof {
        crate::poketui::battle::lemma_level_after_grows(0, 0);
        match o.active_spec() {
            Some(m) => {
                let lvl = a.party@[o.active_party_index as int].level;
                assert(lvl <= MAX_LEVEL) by {
                    lemma_level_bounded(m.level, a.party@[o.active_party_index as int].exp);
                }
                lemma_fits_lower(m.info.hp, MAX_LEVEL, lvl);
            },
            None => match o.player_info {
                Some(i) => {
                    lemma_level_bounded(o.player_level, a.player_exp);
                    lemma_fits_lower(i.hp, MAX_LEVEL, a.player_level);
                },
                None => {},
            },
        }
    }
    let new_max = state.player_max_hp();
    if state.active_party_index < state.party.len() {
        let i = state.active_party_index;
        let mut m = state.party[i].clone();
        let bonus = new_max.saturating_sub(old_max);
        let raised = m.hp.saturating_add(bonus);
        m.hp = if raised < new_max { raised } else { new_max };
        state.party.set(i, m);
    }
    let ghost b = *state;
    sync_legacy_from_active(state);
    let name = format_name_of(state);
    let mut msg = name;
    push_str(&mut msg, " won! Gained ");
    push_str(&mut msg, dec_u64(r.0 as u64).as_str());
    push_str(&mut msg, " XP.");
    if r.1 > 0 {
        push_str(&mut msg, " Leveled up to ");
        push_str(&mut msg, dec_u64(state.active_level() as u64).as_str());
        push_str(&mut msg, "!");
    }
    proof {
        assert(state.name_spec() == a.name_spec());
        assert(state.level_spec() == a.level_spec());
        assert(exp_awarded(o, a, enemy_level, r));
        assert(msg@ == win_message(a.name_spec(), r.0, r.1, a.level_spec()));
        match a.active_spec() {
            Some(m) => {
                let old_max = o.max_hp_spec();
                let new_max = a.max_hp_spec();
                let bonus = if new_max >= old_max { new_max - old_max } else { 0 };
                let raised = if m.hp + bonus > u16::MAX { u16::MAX as int } else { m.hp + bonus };
                let hp = if raised < new_max { raised } else { new_max };
                assert(old_max == old_max_v as int);
                assert(b.party@ =~= a.party@.update(a.active_party_index as int, PartyMember { hp: hp as u16, ..m }));
                assert(b == (AppState { party: b.party, ..a }));
                assert(*state == legacy_synced(b));
            },
            None => {
                assert(b == a);
            },
        }
    }
    msg
}

proof fn lemma_level_bounded(level: u8, exp: u32)
    requires
        level <= MAX_LEVEL,
    ensures
        crate::poketui::battle::level_after(level, exp) <= MAX_LEVEL,
    decreases 100 - level,
{
    if level < MAX_LEVEL && exp >= crate::poketui::state::level_exp((level + 1) as u8) {
        lemma_level_bounded((level + 1) as u8, exp);
    }
}

/// The display form of the player's creature's name.
fn format_name_of(state: &AppState) -> (r: String)
    ensures
        r@ == display_name(state.name_spec()),
{
    crate::poketui::battle::format_name(state.player_name().as_str())
}

/// Every member back to full hit points, the stand-in fields mirroring the
/// active one.
pub open spec fn party_restored(o: AppState, n: AppState) -> bool {
    exists|a: AppState| {
        &&& a.party@.len() == o.party@.len()
        &&& forall|i: int| 0 <= i < o.party@.len() ==> #[trigger] a.party@[i] == (PartyMember { hp: member_max_hp(o.party@[i]), ..o.party@[i] })
        &&& a == (AppState { party: a.party, ..o })
        &&& n == #[trigger] legacy_synced(a)
    }
}

fn restore_party(state: &mut AppState)
    requires
        party_fits(*old(state)),
    ensures
        party_restored(*old(state), *final(state)),
{
    let mut i: usize = 0;
    while i < state.party.len()
        invariant
            i <= state.party@.len(),
            state.party@.len() == old(state).party@.len(),
            party_fits(*old(state)),
            *state == (AppState { party: state.party, ..*old(state) }),
            forall|j: int| 0 <= j < i ==> #[trigger] state.party@[j] == (PartyMember { hp: member_max_hp(old(state).party@[j]), ..old(state).party@[j] }),
            forall|j: int| i <= j < state.party@.len() ==> #[trigger] state.party@[j] == old(state).party@[j],
        decreases state.party.len() - i,
    {
        let mut m = state.party[i].clone();
        assert(stat_fits(old(state).party@[i as int].info.hp, old(state).party@[i as int].level));
        let h = crate::poketui::state::calc_hp(m.info.hp, m.level);
        m.hp = if h < 1 { 1 } else { h };
        state.party.set(i, m);
        i = i + 1;
    }
    let ghost a = *state;
    sync_legacy_from_active(state);
}

/// The message shown as a battle ends, before what a win adds.
pub open spec fn closing_message(b: BattleState) -> Seq<char> {
    match b.stage {
        BattleStage::Victory => b.message@,
        BattleStage::Escape => "Back on the route."@,
        BattleStage::Defeat => "You recovered and returned to the path."@,
        _ => "Battle ended."@,
    }
}

/// Back on the route: the enemy gone, its sprite cleared, the encounter
/// count reset.
pub open spec fn back_on_route(o: AppState, n: AppState) -> bool {
    &&& n.enemy_sprite.is_empty()
    &&& n == (AppState { mode: GameMode::Overworld, enemy_info: None, enemy_sprite: n.enemy_sprite, steps_since_encounter: 0, ..o })
}

/// What ending the battle `b` does to a state without it, up to the
/// message shown.
pub open spec fn battle_settled(o: AppState, n: AppState, b: BattleState, msg: Seq<char>) -> bool {
    match b.stage {
        BattleStage::Victory => exists|s2: AppState, s3: AppState, relic: bool| {
            &&& (if b.captured { s2 == o } else { defeat_recorded(o, s2, b.enemy_name@) })
            &&& #[trigger] win_counted(s2, s3, b.kind, relic)
            &&& if b.kind == BattleKind::Boss {
                &&& n == (AppState { boss_defeated: true, ..s3 })
                &&& msg == "Demo complete! You beat the boss!"@
            } else if !b.captured {
                exists|m: Seq<char>| {
                    &&& #[trigger] win_rewarded(s3, n, b.enemy_level, m)
                    &&& msg == if relic { m + " You found a relic!"@ } else { m }
                }
            } else {
                &&& n == s3
                &&& msg == if relic { b.message@ + " You found a relic!"@ } else { b.message@ }
            }
        },
        BattleStage::Defeat => party_restored(o, n) && msg == closing_message(b),
        _ => n == o && msg == closing_message(b),
    }
}

/// What ending a battle does: its outcome settled and its message shown,
/// then back on the route.
pub open spec fn battle_ended(o: AppState, n: AppState) -> bool {
    match o.battle {
        Some(b) => exists|s: AppState, msg: Seq<char>, t: AppState| {
            &&& #[trigger] battle_settled(AppState { battle: None, ..o }, s, b, msg)
            &&& #[trigger] message_pushed(s, t, msg)
            &&& back_on_route(t, n)
        },
        None => back_on_route(o, n),
    }
}

/// Whether a battle can end without overflow: hit point formulas of the
/// whole party, and of the player's creature up to the highest level,
/// within 16 bits, with its level at most the highest.
pub open spec fn can_end_battle(s: AppState) -> bool {
    &&& party_fits(s)
    &&& hp_fits_to_max(s)
    &&& (s.active_spec() matches Some(m) ==> m.level <= MAX_LEVEL)
    &&& (s.active_spec() is None ==> s.player_level <= MAX_LEVEL)
}

#[verifier::spinoff_prover]
pub fn end_battle(state: &mut AppState) -> (r: Outcome<Effect>)
    requires
        can_end_battle(*old(state)),
    ensures
        r.changed && r.effects@.len() == 0,
        battle_ended(*old(state), *final(state)),
{
    match state.battle.take() {
        Some(b) => {
            let ghost o1 = *state;
            let msg = settle(state, &b);
            let ghost s = *state;
            push_message(state, msg);
            let ghost t = *state;
            leave_battle(state);
            assert(battle_settled(o1, s, b, msg@));
            assert(message_pushed(s, t, msg@));
        },
        None => {
            leave_battle(state);
        },
    }
    Outcome::changed()
}

fn leave_battle(state: &mut AppState)
    ensures
        back_on_route(*old(state), *final(state)),
{
    state.mode = GameMode::Overworld;
    state.enemy_info = None;
    state.enemy_sprite.reset();
    state.steps_since_encounter = 0;
}

/// Settles the battle `b`, already taken out of the state, and gives the
/// message to show.
fn settle(state: &mut AppState, b: &BattleState) -> (msg: String)
    requires
        can_end_battle(*old(state)),
        old(state).battle is None,
    ensures
        battle_settled(*old(state), *final(state), *b, msg@),
{
    match b.stage {
        BattleStage::Victory => {
            sync_active_hp_from_battle(state);
            let ghost o = *state;
            if !b.captured {
                record_defeat(state, b.enemy_name.as_str());
            }
            let ghost s2 = *state;
            let relic = count_win(state, b.kind);
            let ghost s3 = *state;
            let mut msg;
            if b.kind == BattleKind::Boss {
                state.boss_defeated = true;
                msg = owned("Demo complete! You beat the boss!");
            } else if !b.captured {
                msg = reward_win(state, b.enemy_level);
            } else {
                msg = b.message.clone();
            }
            if relic && b.kind != BattleKind::Boss {
                push_str(&mut msg, " You found a relic!");
            }
            assert(win_counted(s2, s3, b.kind, relic));
            msg
        },
        BattleStage::Escape => {
            sync_active_hp_from_battle(state);
            owned("Back on the route.")
        },
        BattleStage::Defeat => {
            restore_party(state);
            owned("You recovered and returned to the path.")
        },
        _ => owned("Battle ended."),
    }
}

} // verus!
