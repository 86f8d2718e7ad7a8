//! Combos: everyone able to fight strikes once, fastest first from a drawn
//! starting point, and each hit lands in turn.
use vstd::prelude::*;
use crate::poketui::action::Effect;
use crate::poketui::battle::{damage_value, display_name, format_name, guarded, rng_out, rng_step};
use crate::poketui::reducer::{
    active_fits, active_hp_synced, calc_damage, next_rand, party_fits, switch_to_next_alive,
    sync_active_hp_from_battle, tick_ability_cooldowns,
};
use crate::poketui::state::{
    calc_stat, stat_fits, stat_formula, AppState, BattleKind, BattleStage, ComboHit, PartyMember, TurnActor,
};

verus! {

/// The player's defense: the active member's, else the stand-in species'
/// at the stand-in level, else 10 at the stand-in level.
pub open spec fn defense_source(s: AppState) -> (u16, u8) {
    match s.active_spec() {
        Some(m) => (m.info.defense, m.level),
        None => match s.player_info {
            Some(i) => (i.defense, s.player_level),
            None => (10, s.player_level),
        },
    }
}

pub fn player_defense(state: &AppState) -> (d: u16)
    requires
        stat_fits(defense_source(*state).0, defense_source(*state).1),
    ensures
        d == stat_formula(defense_source(*state).0, defense_source(*state).1),
{
    let (base, level) = match state.active_member() {
        Some(m) => (m.info.defense, m.level),
        None => match &state.player_info {
            Some(i) => (i.defense, state.player_level),
            None => (10, state.player_level),
        },
    };
    calc_stat(base, level)
}

/// The enemy's base attack; 10 while unknown.
pub open spec fn enemy_attack_base(s: AppState) -> u16 {
    match s.enemy_info {
        Some(i) => i.attack,
        None => 10,
    }
}

/// The enemy's base defense; 10 while unknown.
pub open spec fn enemy_defense_base(s: AppState) -> u16 {
    match s.enemy_info {
        Some(i) => i.defense,
        None => 10,
    }
}

/// The enemy's base speed; 10 while unknown.
pub open spec fn enemy_speed_base(s: AppState) -> u16 {
    match s.enemy_info {
        Some(i) => i.speed,
        None => 10,
    }
}

pub fn enemy_attack(state: &AppState, enemy_level: u8) -> (a: u16)
    requires
        stat_fits(enemy_attack_base(*state), enemy_level),
    ensures
        a == stat_formula(enemy_attack_base(*state), enemy_level),
{
    let base = match &state.enemy_info {
        Some(i) => i.attack,
        None => 10,
    };
    calc_stat(base, enemy_level)
}

pub fn enemy_defense(state: &AppState, enemy_level: u8) -> (d: u16)
    requires
        stat_fits(enemy_defense_base(*state), enemy_level),
    ensures
        d == stat_formula(enemy_defense_base(*state), enemy_level),
{
    let base = match &state.enemy_info {
        Some(i) => i.defense,
        None => 10,
    };
    calc_stat(base, enemy_level)
}

/// The enemy's blow: its attack at its level against the player's defense,
/// the spread drawn from the generator.
pub open spec fn enemy_blow(s: AppState, enemy_level: u8) -> u16 {
    damage_value(
        enemy_level,
        stat_formula(enemy_attack_base(s), enemy_level) as u16,
        stat_formula(defense_source(s).0, defense_source(s).1) as u16,
        rng_out(s.rng_seed),
    )
}

/// Whether the enemy's blow can be worked out in 16 bits.
pub open spec fn blow_fits(s: AppState, enemy_level: u8) -> bool {
    &&& stat_fits(enemy_attack_base(s), enemy_level)
    &&& stat_fits(defense_source(s).0, defense_source(s).1)
}

/// Draws the enemy's blow.
pub fn enemy_damage(state: &mut AppState, enemy_level: u8) -> (d: u16)
    requires
        blow_fits(*old(state), enemy_level),
    ensures
        d == enemy_blow(*old(state), enemy_level),
        *final(state) == (AppState { rng_seed: rng_step(old(state).rng_seed), ..*old(state) }),
{
    let a = enemy_attack(state, enemy_level);
    let d = player_defense(state);
    calc_damage(state, enemy_level, a, d)
}

/// Inserts `x` after every entry at least as fast: the step of a stable
/// sort from fastest to slowest.
pub open spec fn insert_by_speed(sorted: Seq<(TurnActor, u16)>, x: (TurnActor, u16)) -> Seq<(TurnActor, u16)>
    decreases sorted.len(),
{
    if sorted.len() == 0 {
        seq![x]
    } else if sorted.last().1 >= x.1 {
        sorted.push(x)
    } else {
        insert_by_speed(sorted.drop_last(), x).push(sorted.last())
    }
}

/// `actors` from fastest to slowest, equally fast ones in their order.
pub open spec fn by_speed(actors: Seq<(TurnActor, u16)>) -> Seq<(TurnActor, u16)>
    decreases actors.len(),
{
    if actors.len() == 0 {
        seq![]
    } else {
        insert_by_speed(by_speed(actors.drop_last()), actors.last())
    }
}

proof fn lemma_insert_len(sorted: Seq<(TurnActor, u16)>, x: (TurnActor, u16))
    ensures
        insert_by_speed(sorted, x).len() == sorted.len() + 1,
    decreases sorted.len(),
{
    if sorted.len() > 0 && sorted.last().1 < x.1 {
        lemma_insert_len(sorted.drop_last(), x);
    }
}

/// Whether `s` runs from fastest to slowest.
pub open spec fn fastest_first(s: Seq<(TurnActor, u16)>) -> bool {
    forall|i: int, j: int| 0 <= i < j < s.len() ==> s[i].1 >= s[j].1
}

proof fn lemma_insert_floor(sorted: Seq<(TurnActor, u16)>, x: (TurnActor, u16), floor: int)
    requires
        forall|i: int| 0 <= i < sorted.len() ==> sorted[i].1 >= floor,
        x.1 >= floor,
    ensures
        forall|k: int| 0 <= k < insert_by_speed(sorted, x).len() ==> (#[trigger] insert_by_speed(sorted, x)[k]).1 >= floor,
    decreases sorted.len(),
{
    lemma_insert_len(sorted, x);
    if sorted.len() > 0 && sorted.last().1 < x.1 {
        lemma_insert_floor(sorted.drop_last(), x, floor);
        lemma_insert_len(sorted.drop_last(), x);
        let inner = insert_by_speed(sorted.drop_last(), x);
        assert forall|k: int| 0 <= k < insert_by_speed(sorted, x).len() implies (#[trigger] insert_by_speed(sorted, x)[k]).1 >= floor by {
            if k < inner.len() {
                assert(insert_by_speed(sorted, x)[k] == inner[k]);
            }
        }
    }
}

proof fn lemma_insert_keeps_order(sorted: Seq<(TurnActor, u16)>, x: (TurnActor, u16))
    requires
        fastest_first(sorted),
    ensures
        fastest_first(insert_by_speed(sorted, x)),
        insert_by_speed(sorted, x).to_multiset() =~= sorted.to_multiset().insert(x),
    decreases sorted.len(),
{
    broadcast use vstd::seq_lib::group_to_multiset_ensures;

    if sorted.len() == 0 {
        assert(sorted.push(x) =~= seq![x]);
    } else if sorted.last().1 >= x.1 {
    } else {
        let rest = sorted.drop_last();
        let last = sorted.last();
        assert(fastest_first(rest));
        lemma_insert_keeps_order(rest, x);
        lemma_insert_floor(rest, x, last.1 as int);
        lemma_insert_len(rest, x);
        assert(rest.push(last) =~= sorted);
    }
}

proof fn lemma_by_speed(actors: Seq<(TurnActor, u16)>)
    ensures
        fastest_first(by_speed(actors)),
        by_speed(actors).to_multiset() =~= actors.to_multiset(),
    decreases actors.len(),
{
    broadcast use vstd::seq_lib::group_to_multiset_ensures;

    if actors.len() > 0 {
        lemma_by_speed(actors.drop_last());
        lemma_insert_keeps_order(by_speed(actors.drop_last()), actors.last());
        assert(actors.drop_last().push(actors.last()) =~= actors);
    }
}

/// The turn order runs from fastest to slowest and holds exactly the
/// actors it was given, each as often as given.
pub proof fn law_turn_order_sorted(actors: Seq<(TurnActor, u16)>)
    ensures
        fastest_first(by_speed(actors)),
        by_speed(actors).to_multiset() =~= actors.to_multiset(),
        by_speed(actors).len() == actors.len(),
{
    broadcast use vstd::seq_lib::group_to_multiset_ensures;

    lemma_by_speed(actors);
    assert(by_speed(actors).to_multiset().len() == actors.to_multiset().len());
}

/// Inserts `x` into `v`, kept from fastest to slowest.
fn insert_fast(v: &mut Vec<(TurnActor, u16)>, x: (TurnActor, u16))
    ensures
        final(v)@ == insert_by_speed(old(v)@, x),
{
    let mut j = v.len();
    proof {
        assert(old(v)@.subrange(0, j as int) =~= old(v)@);
    }
    while j > 0 && v[j - 1].1 < x.1
        invariant
            j <= v@.len(),
            v@ == old(v)@,
            insert_by_speed(old(v)@, x) == insert_by_speed(old(v)@.subrange(0, j as int), x) + old(v)@.subrange(j as int, old(v)@.len() as int),
        decreases j,
    {
        let ghost pre = old(v)@.subrange(0, j as int);
        assert(pre.drop_last() =~= old(v)@.subrange(0, j - 1));
        assert(pre.last() == old(v)@[j - 1]);
        assert(old(v)@.subrange(j - 1, old(v)@.len() as int) =~= seq![old(v)@[j - 1]] + old(v)@.subrange(j as int, old(v)@.len() as int));
        assert(insert_by_speed(pre, x) == insert_by_speed(old(v)@.subrange(0, j - 1), x).push(old(v)@[j - 1]));
        assert(insert_by_speed(old(v)@.subrange(0, j - 1), x).push(old(v)@[j - 1]) + old(v)@.subrange(j as int, old(v)@.len() as int)
            =~= insert_by_speed(old(v)@.subrange(0, j - 1), x) + old(v)@.subrange(j - 1, old(v)@.len() as int));
        j = j - 1;
    }
    let ghost pre = old(v)@.subrange(0, j as int);
    assert(insert_by_speed(pre, x) =~= pre.push(x)) by {
        if pre.len() > 0 {
            assert(pre.last() == old(v)@[j - 1]);
        }
    }
    v.insert(j, x);
    assert(v@ =~= pre.push(x) + old(v)@.subrange(j as int, old(v)@.len() as int));
}

/// `actors` sorted from fastest to slowest, stably.
pub fn sort_by_speed(actors: &Vec<(TurnActor, u16)>) -> (r: Vec<(TurnActor, u16)>)
    ensures
        r@ == by_speed(actors@),
{
    let mut r: Vec<(TurnActor, u16)> = Vec::new();
    let mut i: usize = 0;
    while i < actors.len()
        invariant
            i <= actors@.len(),
            r@ == by_speed(actors@.take(i as int)),
        decreases actors.len() - i,
    {
        assert(actors@.take(i + 1).drop_last() =~= actors@.take(i as int));
        insert_fast(&mut r, actors[i]);
        i = i + 1;
    }
    assert(actors@.take(actors@.len() as int) =~= actors@);
    r
}

/// The party members that can fight, in party order, with their speeds.
pub open spec fn member_fighters(party: Seq<PartyMember>) -> Seq<(TurnActor, u16)>
    decreases party.len(),
{
    if party.len() == 0 {
        seq![]
    } else {
        let rest = member_fighters(party.drop_last());
        let m = party.last();
        if m.hp == 0 {
            rest
        } else {
            rest.push((TurnActor::Player { member_index: (party.len() - 1) as usize }, stat_formula(m.info.speed, m.level) as u16))
        }
    }
}

/// Who fights on the player's side: the members that can, or the stand-in
/// (first place, the stand-in species' speed or 10) when the party is empty.
pub open spec fn player_fighters(s: AppState) -> Seq<(TurnActor, u16)> {
    if s.party@.len() == 0 {
        let base = match s.player_info {
            Some(i) => i.speed,
            None => 10,
        };
        seq![(TurnActor::Player { member_index: 0 }, stat_formula(base, s.player_level) as u16)]
    } else {
        member_fighters(s.party@)
    }
}

/// A hit as its parts: who, under what name, for how much, the ability
/// named, and whether the ability set the damage.
pub type HitView = (TurnActor, Seq<char>, u16, Option<Seq<char>>, bool);

pub open spec fn hit_view(h: ComboHit) -> HitView {
    (h.actor, h.name@, h.damage, match h.ability_name { Some(n) => Some(n@), None => None }, h.ability_damage)
}

pub open spec fn hit_views(v: Seq<ComboHit>) -> Seq<HitView> {
    v.map_values(|h: ComboHit| hit_view(h))
}

/// Level, base attack and name of the attacker at party place `idx`: the
/// member there, or the stand-in (its species' attack or 10, and the
/// player's name) when there is none.
pub open spec fn attacker(s: AppState, idx: usize) -> (u8, u16, Seq<char>) {
    if idx < s.party@.len() {
        let m = s.party@[idx as int];
        (if m.level < 1 { 1 } else { m.level }, m.info.attack, m.info.name@)
    } else {
        let l = if s.player_level < 1 { 1 } else { s.player_level };
        match s.player_info {
            Some(i) => (l, i.attack, i.name@),
            None => (l, 10, s.name_spec()),
        }
    }
}

/// The hit of `actor`, drawn from `seed`, and the seed after it: the active
/// member's ability may set its damage (at least 1) without a draw.
pub open spec fn hit_of(s: AppState, actor: TurnActor, ad: Option<u16>, an: Option<Seq<char>>, seed: u64) -> (HitView, u64) {
    match actor {
        TurnActor::Player { member_index } => {
            let (level, attack, name) = attacker(s, member_index);
            let active = member_index == s.active_party_index;
            let label = if active { an } else { None };
            if active && ad is Some {
                let d = ad.unwrap();
                ((actor, display_name(name), if d < 1 { 1 } else { d }, label, true), seed)
            } else {
                let e = s.battle.unwrap().enemy_level;
                let d = damage_value(level, stat_formula(attack, level) as u16, stat_formula(enemy_defense_base(s), e) as u16, rng_out(seed));
                ((actor, display_name(name), d, label, false), rng_step(seed))
            }
        },
        TurnActor::Enemy => {
            let b = s.battle.unwrap();
            let d = damage_value(
                b.enemy_level,
                stat_formula(enemy_attack_base(s), b.enemy_level) as u16,
                stat_formula(defense_source(s).0, defense_source(s).1) as u16,
                rng_out(seed),
            );
            ((actor, display_name(b.enemy_name@), d, None, false), rng_step(seed))
        },
    }
}

/// The hits of `order` in turn, the generator threaded through them.
pub open spec fn hits_of(s: AppState, order: Seq<(TurnActor, u16)>, ad: Option<u16>, an: Option<Seq<char>>, seed: u64) -> (Seq<HitView>, u64)
    decreases order.len(),
{
    if order.len() == 0 {
        (seq![], seed)
    } else {
        let (h, s1) = hit_of(s, order[0].0, ad, an, seed);
        let (rest, s2) = hits_of(s, order.drop_first(), ad, an, s1);
        (seq![h] + rest, s2)
    }
}

/// The order of a combo: everyone from fastest to slowest, then the one at
/// the drawn place moved to the front.
pub open spec fn combo_order(all: Seq<(TurnActor, u16)>, roll: u32) -> Seq<(TurnActor, u16)> {
    let sorted = by_speed(all);
    let start = (roll as int) % (sorted.len() as int);
    seq![sorted[start]] + sorted.remove(start)
}

/// Whether the numbers of a combo stay within 16 bits.
pub open spec fn combo_fits(s: AppState) -> bool {
    &&& forall|i: int| 0 <= i < s.party@.len() ==> {
        &&& stat_fits((#[trigger] s.party@[i]).info.speed, s.party@[i].level)
        &&& stat_fits(s.party@[i].info.attack, s.party@[i].level)
    }
    &&& stat_fits(match s.player_info { Some(i) => i.speed, None => 10 }, s.player_level)
    &&& stat_fits(match s.player_info { Some(i) => i.attack, None => 10 }, s.player_level)
    &&& (s.battle matches Some(b) ==> {
        &&& stat_fits(enemy_speed_base(s), b.enemy_level)
        &&& stat_fits(enemy_defense_base(s), b.enemy_level)
        &&& blow_fits(s, b.enemy_level)
    })
}

/// The hits of a combo as the generator draws them: none without a battle
/// or without anyone on the player's side able to fight (and then nothing
/// is drawn); otherwise the order is drawn, then each damage in turn.
pub open spec fn combo_built(o: AppState, n: AppState, ad: Option<u16>, an: Option<Seq<char>>, hits: Seq<HitView>) -> bool {
    if o.battle is None || player_fighters(o).len() == 0 {
        hits.len() == 0 && n == o
    } else {
        let b = o.battle.unwrap();
        let all = player_fighters(o).push((TurnActor::Enemy, stat_formula(enemy_speed_base(o), b.enemy_level) as u16));
        let order = combo_order(all, rng_out(o.rng_seed));
        let (hs, seed) = hits_of(o, order, ad, an, rng_step(o.rng_seed));
        &&& hits == hs
        &&& n == (AppState { rng_seed: seed, ..o })
    }
}

/// Whether an actor on the player's side stands at a place below `bound`.
pub open spec fn actor_within(a: TurnActor, bound: int) -> bool {
    match a {
        TurnActor::Player { member_index } => member_index < bound,
        TurnActor::Enemy => true,
    }
}

pub open spec fn label_view(an: Option<&str>) -> Option<Seq<char>> {
    match an {
        Some(x) => Some(x@),
        None => None,
    }
}

/// The hit of one actor.
fn make_hit(state: &mut AppState, actor: TurnActor, ad: Option<u16>, an: Option<&str>, enemy_def: u16) -> (h: ComboHit)
    requires
        combo_fits(*old(state)),
        old(state).battle is Some,
        enemy_def == stat_formula(enemy_defense_base(*old(state)), old(state).battle.unwrap().enemy_level),
        actor_within(actor, if old(state).party@.len() == 0 { 1 } else { old(state).party@.len() as int }),
    ensures
        hit_view(h) == hit_of(*old(state), actor, ad, label_view(an), old(state).rng_seed).0,
        *final(state) == (AppState { rng_seed: hit_of(*old(state), actor, ad, label_view(an), old(state).rng_seed).1, ..*old(state) }),
{
    match actor {
        TurnActor::Player { member_index } => {
            let (level, attack, name) = if member_index < state.party.len() {
                let m = &state.party[member_index];
                (if m.level < 1 { 1 } else { m.level }, m.info.attack, m.info.name.clone())
            } else {
                let l = if state.player_level < 1 { 1 } else { state.player_level };
                match &state.player_info {
                    Some(i) => (l, i.attack, i.name.clone()),
                    None => (l, 10, state.player_name()),
                }
            };
            let active = member_index == state.active_party_index;
            let label = if active {
                match an {
                    Some(x) => Some(crate::text::owned(x)),
                    None => None,
                }
            } else {
                None
            };
            let used = active && ad.is_some();
            let damage = if used {
                let d = ad.unwrap();
                if d < 1 { 1 } else { d }
            } else {
                proof {
                    if member_index < old(state).party@.len() {
                        assert(stat_fits(old(state).party@[member_index as int].info.attack, old(state).party@[member_index as int].level));
                    }
                }
                let a = calc_stat(attack, level);
                calc_damage(state, level, a, enemy_def)
            };
            ComboHit { actor, name: format_name(name.as_str()), damage, ability_name: label, ability_damage: used }
        },
        TurnActor::Enemy => {
            let (level, name) = match &state.battle {
                Some(b) => (b.enemy_level, b.enemy_name.clone()),
                None => (5, crate::text::owned("Enemy")),
            };
            let damage = enemy_damage(state, level);
            ComboHit { actor, name: format_name(name.as_str()), damage, ability_name: None, ability_damage: false }
        },
    }
}

/// The speeds of the members that can fight.
fn member_speeds(state: &AppState) -> (v: Vec<(TurnActor, u16)>)
    requires
        combo_fits(*state),
    ensures
        v@ == member_fighters(state.party@),
{
    let mut v: Vec<(TurnActor, u16)> = Vec::new();
    let mut i: usize = 0;
    while i < state.party.len()
        invariant
            i <= state.party@.len(),
            combo_fits(*state),
            v@ == member_fighters(state.party@.take(i as int)),
        decreases state.party.len() - i,
    {
        assert(state.party@.take(i + 1).drop_last() =~= state.party@.take(i as int));
        let m = &state.party[i];
        if m.hp != 0 {
            assert(stat_fits(state.party@[i as int].info.speed, state.party@[i as int].level));
            let l = if m.level < 1 { 1 } else { m.level };
            v.push((TurnActor::Player { member_index: i }, calc_stat(m.info.speed, l)));
        }
        i = i + 1;
    }
    assert(state.party@.take(state.party@.len() as int) =~= state.party@);
    v
}

proof fn lemma_member_fighters_index(party: Seq<PartyMember>, k: int)
    requires
        0 <= k < member_fighters(party).len(),
    ensures
        member_fighters(party)[k].0 matches TurnActor::Player { member_index } && member_index < party.len(),
    decreases party.len(),
{
    if party.len() > 0 {
        let rest = member_fighters(party.drop_last());
        if k < rest.len() {
            lemma_member_fighters_index(party.drop_last(), k);
        }
    }
}

proof fn lemma_insert_members(sorted: Seq<(TurnActor, u16)>, x: (TurnActor, u16), bound: int)
    requires
        forall|k: int| 0 <= k < sorted.len() ==> actor_within((#[trigger] sorted[k]).0, bound),
        actor_within(x.0, bound),
    ensures
        forall|k: int| 0 <= k < insert_by_speed(sorted, x).len() ==> actor_within((#[trigger] insert_by_speed(sorted, x)[k]).0, bound),
    decreases sorted.len(),
{
    lemma_insert_len(sorted, x);
    if sorted.len() > 0 && sorted.last().1 < x.1 {
        lemma_insert_members(sorted.drop_last(), x, bound);
        lemma_insert_len(sorted.drop_last(), x);
        assert forall|k: int| 0 <= k < insert_by_speed(sorted, x).len() implies actor_within((#[trigger] insert_by_speed(sorted, x)[k]).0, bound) by {
            if k < insert_by_speed(sorted.drop_last(), x).len() {
                assert(insert_by_speed(sorted, x)[k] == insert_by_speed(sorted.drop_last(), x)[k]);
            } else {
                assert(insert_by_speed(sorted, x)[k] == sorted.last());
            }
        }
    } else if sorted.len() > 0 {
        assert forall|k: int| 0 <= k < insert_by_speed(sorted, x).len() implies actor_within((#[trigger] insert_by_speed(sorted, x)[k]).0, bound) by {
            if k < sorted.len() {
                assert(insert_by_speed(sorted, x)[k] == sorted[k]);
            }
        }
    }
}

proof fn lemma_sorted_members(all: Seq<(TurnActor, u16)>, bound: int)
    requires
        forall|k: int| 0 <= k < all.len() ==> actor_within((#[trigger] all[k]).0, bound),
    ensures
        by_speed(all).len() == all.len(),
        forall|k: int| 0 <= k < by_speed(all).len() ==> actor_within((#[trigger] by_speed(all)[k]).0, bound),
    decreases all.len(),
{
    if all.len() > 0 {
        assert forall|k: int| 0 <= k < all.drop_last().len() implies actor_within((#[trigger] all.drop_last()[k]).0, bound) by {
            assert(all.drop_last()[k] == all[k]);
        }
        lemma_sorted_members(all.drop_last(), bound);
        lemma_insert_members(by_speed(all.drop_last()), all.last(), bound);
        lemma_insert_len(by_speed(all.drop_last()), all.last());
    }
}

/// Everyone taking part, the enemy last.
fn combo_actors(state: &AppState) -> (v: Vec<(TurnActor, u16)>)
    requires
        combo_fits(*state),
        state.battle is Some,
    ensures
        player_fighters(*state).len() == 0 ==> v@.len() == 0,
        player_fighters(*state).len() > 0 ==> v@ == player_fighters(*state).push(
            (TurnActor::Enemy, stat_formula(enemy_speed_base(*state), state.battle.unwrap().enemy_level) as u16),
        ),
        forall|j: int| 0 <= j < by_speed(v@).len() ==> actor_within((#[trigger] by_speed(v@)[j]).0, if state.party@.len() == 0 { 1 } else { state.party@.len() as int }),
        by_speed(v@).len() == v@.len(),
{
    let enemy_level = match &state.battle {
        Some(b) => b.enemy_level,
        None => 5,
    };
    let mut actors: Vec<(TurnActor, u16)> = if state.party.len() == 0 {
        let base = match &state.player_info {
            Some(i) => i.speed,
            None => 10,
        };
        let l = if state.player_level < 1 { 1 } else { state.player_level };
        vec![(TurnActor::Player { member_index: 0 }, calc_stat(base, l))]
    } else {
        member_speeds(state)
    };
    assert(actors@ =~= player_fighters(*state));
    if actors.len() == 0 {
        proof {
            lemma_sorted_members(actors@, 1);
        }
        return actors;
    }
    let base = match &state.enemy_info {
        Some(i) => i.speed,
        None => 10,
    };
    let el = if enemy_level < 1 { 1 } else { enemy_level };
    actors.push((TurnActor::Enemy, calc_stat(base, el)));
    proof {
        let all = actors@;
        let pf = player_fighters(*state);
        if state.party@.len() > 0 {
            assert forall|k: int| 0 <= k < all.len() implies actor_within((#[trigger] all[k]).0, state.party@.len() as int) by {
                if k < pf.len() {
                    lemma_member_fighters_index(state.party@, k);
                }
            }
            lemma_sorted_members(all, state.party@.len() as int);
        } else {
            lemma_sorted_members(all, 1);
        }
    }
    actors
}

/// `sorted` with its entry at `start` moved to the front.
fn rotate_to_front(sorted: &Vec<(TurnActor, u16)>, start: usize) -> (v: Vec<(TurnActor, u16)>)
    requires
        start < sorted@.len(),
    ensures
        v@ == seq![sorted@[start as int]] + sorted@.remove(start as int),
{
    let mut ordered: Vec<(TurnActor, u16)> = Vec::new();
    ordered.push(sorted[start]);
    let mut k: usize = 0;
    while k < sorted.len()
        invariant
            k <= sorted@.len(),
            start < sorted@.len(),
            ordered@ == seq![sorted@[start as int]] + sorted@.remove(start as int).take(if k <= start { k as int } else { k - 1 }),
        decreases sorted.len() - k,
    {
        if k != start {
            ordered.push(sorted[k]);
            assert(sorted@.remove(start as int).take(if k + 1 <= start { k + 1 } else { k as int }) =~= sorted@.remove(start as int).take(if k <= start { k as int } else { k - 1 }).push(sorted@[k as int]));
        } else {
            assert(sorted@.remove(start as int).take(start as int) =~= sorted@.remove(start as int).take(if k + 1 <= start { k + 1 } else { k as int }));
        }
        k = k + 1;
    }
    assert(sorted@.remove(start as int).take(sorted@.len() - 1) =~= sorted@.remove(start as int));
    ordered
}

/// The hits of `ordered` in turn, against the state the combo started from.
fn hits_in_order(state: &mut AppState, ordered: &Vec<(TurnActor, u16)>, ad: Option<u16>, an: Option<&str>, enemy_def: u16, Ghost(s0): Ghost<AppState>) -> (hits: Vec<ComboHit>)
    requires
        combo_fits(s0),
        s0.battle is Some,
        *old(state) == (AppState { rng_seed: old(state).rng_seed, ..s0 }),
        enemy_def == stat_formula(enemy_defense_base(s0), s0.battle.unwrap().enemy_level),
        forall|j: int| 0 <= j < ordered@.len() ==> actor_within((#[trigger] ordered@[j]).0, if s0.party@.len() == 0 { 1 } else { s0.party@.len() as int }),
    ensures
        hit_views(hits@) == hits_of(s0, ordered@, ad, label_view(an), old(state).rng_seed).0,
        *final(state) == (AppState { rng_seed: hits_of(s0, ordered@, ad, label_view(an), old(state).rng_seed).1, ..s0 }),
{
    let ghost order = ordered@;
    let ghost seed0 = state.rng_seed;
    let mut hits: Vec<ComboHit> = Vec::new();
    let mut i: usize = 0;
    assert(order.skip(0) =~= order);
    assert(hit_views(hits@) + hits_of(s0, order.skip(0), ad, label_view(an), seed0).0 =~= hits_of(s0, order, ad, label_view(an), seed0).0);
    while i < ordered.len()
        invariant
            i <= ordered@.len(),
            order == ordered@,
            combo_fits(s0),
            s0.battle is Some,
            enemy_def == stat_formula(enemy_defense_base(s0), s0.battle.unwrap().enemy_level),
            *state == (AppState { rng_seed: state.rng_seed, ..s0 }),
            forall|j: int| 0 <= j < order.len() ==> actor_within((#[trigger] order[j]).0, if s0.party@.len() == 0 { 1 } else { s0.party@.len() as int }),
            hit_views(hits@) + hits_of(s0, order.skip(i as int), ad, label_view(an), state.rng_seed).0 == hits_of(s0, order, ad, label_view(an), seed0).0,
            hits_of(s0, order.skip(i as int), ad, label_view(an), state.rng_seed).1 == hits_of(s0, order, ad, label_view(an), seed0).1,
        decreases ordered.len() - i,
    {
        let ghost hv = hit_views(hits@);
        assert(order.skip(i as int)[0] == order[i as int]);
        assert(order.skip(i as int).drop_first() =~= order.skip(i + 1));
        let h = make_hit_in(state, ordered[i].0, ad, an, enemy_def, Ghost(s0));
        hits.push(h);
        assert(hit_views(hits@) =~= hv.push(hit_view(h)));
        assert(hv.push(hit_view(h)) + hits_of(s0, order.skip(i + 1), ad, label_view(an), state.rng_seed).0 =~= hv + (seq![hit_view(h)] + hits_of(s0, order.skip(i + 1), ad, label_view(an), state.rng_seed).0));
        i = i + 1;
    }
    assert(order.skip(ordered@.len() as int).len() == 0);
    assert(hit_views(hits@) + Seq::<HitView>::empty() =~= hit_views(hits@));
    hits
}

/// The hits of a combo: the order drawn, then each damage drawn in turn.
pub fn build_combo_hits(state: &mut AppState, ad: Option<u16>, an: Option<&str>) -> (hits: Vec<ComboHit>)
    requires
        combo_fits(*old(state)),
    ensures
        combo_built(*old(state), *final(state), ad, label_view(an), hit_views(hits@)),
{
    let enemy_level = match &state.battle {
        Some(b) => b.enemy_level,
        None => {
            let v: Vec<ComboHit> = Vec::new();
            assert(hit_views(v@) =~= Seq::<HitView>::empty());
            return v;
        },
    };
    let enemy_def = enemy_defense(state, enemy_level);
    let actors = combo_actors(state);
    if actors.len() == 0 {
        let v: Vec<ComboHit> = Vec::new();
        assert(hit_views(v@) =~= Seq::<HitView>::empty());
        return v;
    }
    let sorted = sort_by_speed(&actors);
    let roll = next_rand(state);
    let start = (roll as usize) % sorted.len();
    let ordered = rotate_to_front(&sorted, start);
    assert(ordered@ == combo_order(actors@, roll));
    let ghost s0 = *old(state);
    proof {
        assert forall|j: int| 0 <= j < ordered@.len() implies actor_within((#[trigger] ordered@[j]).0, if s0.party@.len() == 0 { 1 } else { s0.party@.len() as int }) by {
            if j == 0 {
                assert(ordered@[0] == sorted@[start as int]);
            } else if j - 1 < start {
                assert(ordered@[j] == sorted@[j - 1]);
            } else {
                assert(ordered@[j] == sorted@[j]);
            }
        }
    }
    hits_in_order(state, &ordered, ad, an, enemy_def, Ghost(s0))
}

/// `make_hit` against the state the combo started from, which differs from
/// the current one only in the generator.
fn make_hit_in(state: &mut AppState, actor: TurnActor, ad: Option<u16>, an: Option<&str>, enemy_def: u16, Ghost(s0): Ghost<AppState>) -> (h: ComboHit)
    requires
        combo_fits(s0),
        s0.battle is Some,
        *old(state) == (AppState { rng_seed: old(state).rng_seed, ..s0 }),
        enemy_def == stat_formula(enemy_defense_base(s0), s0.battle.unwrap().enemy_level),
        actor_within(actor, if s0.party@.len() == 0 { 1 } else { s0.party@.len() as int }),
    ensures
        hit_view(h) == hit_of(s0, actor, ad, label_view(an), old(state).rng_seed).0,
        *final(state) == (AppState { rng_seed: hit_of(s0, actor, ad, label_view(an), old(state).rng_seed).1, ..s0 }),
{
    let h = make_hit(state, actor, ad, an, enemy_def);
    h
}

} // verus!
