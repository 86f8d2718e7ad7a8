//! Creature data and sprites arriving (or failing to), and the animation
//! clock.
use vstd::prelude::*;
use crate::dndtui::sprite::SpriteData;
use crate::outcome::Outcome;
use crate::poketui::action::Effect;
use crate::poketui::events::{ability_for, ability_id_for_species};
use crate::poketui::reducer::{legacy_synced, message_pushed, push_message, sync_legacy_from_active};
use crate::poketui::state::{
    calc_hp, exp_for_level, hp_formula, level_exp, stat_fits, stat_fits_now, AppState, BattleStage, BattleState, GameMode, PartyMember,
    PokemonInfo, SpriteState, SpriteTarget,
};
use crate::poketui::strikes::{sprite_url_for, sprite_url_spec};
use crate::text::{owned, push_str};

verus! {

pub open spec fn at_least_1(v: int) -> int {
    if v < 1 { 1 } else { v }
}

/// Whether the hit points of `info` can be worked out in 16 bits where
/// they will be.
pub open spec fn loaded_fits(s: AppState, target: SpriteTarget, info: PokemonInfo) -> bool {
    match target {
        SpriteTarget::Player => if s.party@.len() == 0 {
            stat_fits(info.hp, at_least_1(s.player_level as int) as u8)
        } else {
            s.active_spec() matches Some(m) ==> stat_fits(info.hp, m.level)
        },
        SpriteTarget::Enemy => s.battle matches Some(b) ==> stat_fits(info.hp, b.enemy_level),
    }
}

/// Whether the hit points of `info` can be worked out in 16 bits where they
/// will be (see `loaded_fits`).
pub fn loaded_fits_now(state: &AppState, target: SpriteTarget, info: &PokemonInfo) -> (b: bool)
    ensures
        b == loaded_fits(*state, target, *info),
{
    match target {
        SpriteTarget::Player => if state.party.len() == 0 {
            let level: u8 = if state.player_level < 1 { 1 } else { state.player_level };
            stat_fits_now(info.hp, level)
        } else {
            match state.active_member() {
                Some(m) => stat_fits_now(info.hp, m.level),
                None => true,
            }
        },
        SpriteTarget::Enemy => match &state.battle {
            Some(b) => stat_fits_now(info.hp, b.enemy_level),
            None => true,
        },
    }
}

/// The sprite of `info` asked for, or loading marked done when it has none.
pub open spec fn sprite_asked(o: AppState, n: AppState, target: SpriteTarget, info: PokemonInfo, r: Outcome<Effect>) -> bool {
    &&& r.changed
    &&& match sprite_url_spec(info) {
        Some(url) => {
            &&& r.effects@.len() == 1
            &&& r.effects@[0] matches Effect::LoadSprite { target: t, url: u } && t == target && u == url
            &&& match target {
                SpriteTarget::Player => n == (AppState { player_sprite: SpriteState { loading: true, ..o.player_sprite }, ..o }),
                SpriteTarget::Enemy => n == (AppState { enemy_sprite: SpriteState { loading: true, ..o.enemy_sprite }, ..o }),
            }
        },
        None => {
            &&& r.effects@.len() == 0
            &&& match target {
                SpriteTarget::Player => n == (AppState { player_sprite: SpriteState { loading: false, ..o.player_sprite }, ..o }),
                SpriteTarget::Enemy => n == (AppState { enemy_sprite: SpriteState { loading: false, ..o.enemy_sprite }, ..o }),
            }
        },
    }
}

fn ask_sprite(state: &mut AppState, target: SpriteTarget, info: &PokemonInfo) -> (r: Outcome<Effect>)
    ensures
        sprite_asked(*old(state), *final(state), target, *info, r),
{
    match sprite_url_for(info) {
        Some(url) => {
            match target {
                SpriteTarget::Player => state.player_sprite.loading = true,
                SpriteTarget::Enemy => state.enemy_sprite.loading = true,
            }
            Outcome::changed_with(Effect::LoadSprite { target, url })
        },
        None => {
            match target {
                SpriteTarget::Player => state.player_sprite.loading = false,
                SpriteTarget::Enemy => state.enemy_sprite.loading = false,
            }
            Outcome::changed()
        },
    }
}

/// A creature's data arriving. For the player: the stand-in species is
/// set; an empty party gets its first member (at the stand-in level, at
/// least 1, with full hit points, at least the experience of its level,
/// and its species' ability); otherwise the active member takes the
/// species, its hit points restored when 0 or too high, and its species'
/// ability when it has none; the stand-in fields mirror it; then its sprite
/// is asked for. For the enemy: its data is set, the battle's enemy hit
/// points become its maximum, and its sprite is asked for.
pub open spec fn pokemon_arrived(o: AppState, n: AppState, target: SpriteTarget, info: PokemonInfo, r: Outcome<Effect>) -> bool {
    match target {
        SpriteTarget::Player => {
            let s1 = AppState { player_info: Some(info), ..o };
            let ab = ability_for(o, info.name@);
            exists|s2: AppState| {
                &&& (if o.party@.len() == 0 {
                    let level = at_least_1(o.player_level as int) as u8;
                    let hp = at_least_1(hp_formula(info.hp, level)) as u16;
                    let exp = if o.player_exp >= level_exp(level) { o.player_exp } else { level_exp(level) as u32 };
                    &&& s2.party@.len() == 1
                    &&& s2.party@[0].info == info && s2.party@[0].level == level && s2.party@[0].exp == exp && s2.party@[0].hp == hp
                    &&& s2.party@[0].ability_cd == 0
                    &&& (match ab { Some(a) => s2.party@[0].ability_id matches Some(x) && x@ == a, None => s2.party@[0].ability_id is None })
                    &&& s2 == (AppState { party: s2.party, active_party_index: 0, ..s1 })
                } else {
                    match o.active_spec() {
                        Some(m) => {
                            let max_hp = at_least_1(hp_formula(info.hp, m.level)) as u16;
                            let m2 = PartyMember { info, hp: if m.hp == 0 || m.hp > max_hp { max_hp } else { m.hp }, ..m };
                            &&& s2.party@.len() == o.party@.len()
                            &&& forall|j: int| 0 <= j < o.party@.len() && j != o.active_party_index ==> #[trigger] s2.party@[j] == o.party@[j]
                            &&& s2.party@[o.active_party_index as int].info == info
                            &&& s2.party@[o.active_party_index as int].level == m.level
                            &&& s2.party@[o.active_party_index as int].exp == m.exp
                            &&& s2.party@[o.active_party_index as int].hp == m2.hp
                            &&& s2.party@[o.active_party_index as int].ability_cd == m.ability_cd
                            &&& (if m.ability_id is Some {
                                s2.party@[o.active_party_index as int].ability_id == m.ability_id
                            } else {
                                match ab { Some(a) => s2.party@[o.active_party_index as int].ability_id matches Some(x) && x@ == a, None => s2.party@[o.active_party_index as int].ability_id is None }
                            })
                            &&& s2 == (AppState { party: s2.party, ..s1 })
                        },
                        None => s2 == s1,
                    }
                })
                &&& #[trigger] sprite_asked(legacy_synced(s2), n, SpriteTarget::Player, info, r)
            }
        },
        SpriteTarget::Enemy => {
            let s1 = AppState {
                enemy_info: Some(info),
                battle: match o.battle {
                    Some(b) => {
                        let hp = at_least_1(hp_formula(info.hp, b.enemy_level)) as u16;
                        Some(BattleState { enemy_hp_max: hp, enemy_hp: hp, ..b })
                    },
                    None => None,
                },
                ..o
            };
            sprite_asked(s1, n, SpriteTarget::Enemy, info, r)
        },
    }
}

pub fn pokemon_loaded(state: &mut AppState, target: SpriteTarget, info: PokemonInfo) -> (r: Outcome<Effect>)
    requires
        loaded_fits(*old(state), target, info),
    ensures
        pokemon_arrived(*old(state), *final(state), target, info, r),
{
    match target {
        SpriteTarget::Player => {
            state.player_info = Some(info.clone());
            let ability_id = ability_id_for_species(state, info.name.as_str());
            if state.party.len() == 0 {
                let level = if state.player_level < 1 { 1 } else { state.player_level };
                let h = calc_hp(info.hp, level);
                let max_hp = if h < 1 { 1 } else { h };
                let min_exp = exp_for_level(level);
                let exp = if state.player_exp >= min_exp { state.player_exp } else { min_exp };
                state.party.push(PartyMember { info: info.clone(), level, exp, hp: max_hp, ability_id, ability_cd: 0 });
                state.active_party_index = 0;
            } else if state.active_party_index < state.party.len() {
                let i = state.active_party_index;
                let mut m = state.party[i].clone();
                m.info = info.clone();
                let h = calc_hp(m.info.hp, m.level);
                let max_hp = if h < 1 { 1 } else { h };
                if m.hp == 0 || m.hp > max_hp {
                    m.hp = max_hp;
                }
                if m.ability_id.is_none() {
                    m.ability_id = ability_id;
                }
                state.party.set(i, m);
            }
            let ghost s2 = *state;
            sync_legacy_from_active(state);
            let r = ask_sprite(state, SpriteTarget::Player, &info);
            assert(sprite_asked(legacy_synced(s2), *state, SpriteTarget::Player, info, r));
            r
        },
        SpriteTarget::Enemy => {
            state.enemy_info = Some(info.clone());
            match state.battle.take() {
                Some(mut b) => {
                    let h = calc_hp(info.hp, b.enemy_level);
                    let hp = if h < 1 { 1 } else { h };
                    b.enemy_hp_max = hp;
                    b.enemy_hp = hp;
                    state.battle = Some(b);
                },
                None => {},
            }
            ask_sprite(state, SpriteTarget::Enemy, &info)
        },
    }
}

/// A creature's data failing to arrive: for the player a notice and no
/// more loading; for the enemy, it flees (the battle escapes) and its
/// sprite stops loading.
pub open spec fn pokemon_failed(o: AppState, n: AppState, target: SpriteTarget, name: Seq<char>, error: Seq<char>) -> bool {
    match target {
        SpriteTarget::Player => exists|s1: AppState| #[trigger] message_pushed(o, s1, "Player load error: "@ + error) && n == (AppState {
            player_sprite: SpriteState { loading: false, ..s1.player_sprite },
            ..s1
        }),
        SpriteTarget::Enemy => n == (AppState {
            battle: match o.battle {
                Some(b) => Some(BattleState { stage: BattleStage::Escape, message: n.battle.unwrap().message, ..b }),
                None => None,
            },
            enemy_sprite: SpriteState { loading: false, ..o.enemy_sprite },
            ..o
        }) && (o.battle is Some ==> n.battle.unwrap().message@ == name + " fled."@),
    }
}

pub fn pokemon_error(state: &mut AppState, target: SpriteTarget, name: &str, error: &str) -> (r: Outcome<Effect>)
    ensures
        r.changed && r.effects@.len() == 0,
        pokemon_failed(*old(state), *final(state), target, name@, error@),
{
    match target {
        SpriteTarget::Player => {
            let mut msg = owned("Player load error: ");
            push_str(&mut msg, error);
            push_message(state, msg);
            let ghost s1 = *state;
            state.player_sprite.loading = false;
            assert(message_pushed(*old(state), s1, "Player load error: "@ + error@));
        },
        SpriteTarget::Enemy => {
            match state.battle.take() {
                Some(mut b) => {
                    b.stage = BattleStage::Escape;
                    let mut msg = owned(name);
                    push_str(&mut msg, " fled.");
                    b.message = msg;
                    state.battle = Some(b);
                },
                None => {},
            }
            state.enemy_sprite.loading = false;
        },
    }
    Outcome::changed()
}

/// A sprite shown fresh: the image and its mirror image, the animation
/// rewound, no longer loading.
pub open spec fn sprite_shown(o: SpriteState, n: SpriteState, sprite: SpriteData) -> bool {
    &&& n.sprite matches Some(d) && d.frames@ == sprite.frames@ && d.width == sprite.width && d.height == sprite.height
    &&& n.sprite_flipped matches Some(f) && f.width == sprite.width && f.height == sprite.height && f.frames@.len() == sprite.frames@.len()
        && forall|i: int| 0 <= i < sprite.frames@.len() ==> (#[trigger] f.frames@[i]).payload@ == crate::dndtui::sprite::flipped_payload(sprite.frames@[i])
    &&& n.frame_index == 0 && n.frame_tick == 0 && !n.loading
}

pub fn show_sprite(slot: &mut SpriteState, sprite: SpriteData)
    ensures
        sprite_shown(*old(slot), *final(slot), sprite),
{
    let flipped = sprite.flipped();
    slot.sprite = Some(sprite);
    slot.sprite_flipped = Some(flipped);
    slot.frame_index = 0;
    slot.frame_tick = 0;
    slot.loading = false;
}

pub fn sprite_loaded(state: &mut AppState, target: SpriteTarget, sprite: SpriteData) -> (r: Outcome<Effect>)
    ensures
        r.changed && r.effects@.len() == 0,
        match target {
            SpriteTarget::Player => sprite_shown(old(state).player_sprite, final(state).player_sprite, sprite)
                && *final(state) == (AppState { player_sprite: final(state).player_sprite, ..*old(state) }),
            SpriteTarget::Enemy => sprite_shown(old(state).enemy_sprite, final(state).enemy_sprite, sprite)
                && *final(state) == (AppState { enemy_sprite: final(state).enemy_sprite, ..*old(state) }),
        },
{
    match target {
        SpriteTarget::Player => show_sprite(&mut state.player_sprite, sprite),
        SpriteTarget::Enemy => show_sprite(&mut state.enemy_sprite, sprite),
    }
    Outcome::changed()
}

/// A sprite failing to arrive: for the player a notice, for the enemy the
/// battle's message; either way no more loading.
pub open spec fn sprite_failed(o: AppState, n: AppState, target: SpriteTarget, error: Seq<char>) -> bool {
    match target {
        SpriteTarget::Player => exists|s1: AppState| #[trigger] message_pushed(o, s1, "Player sprite error: "@ + error) && n == (AppState {
            player_sprite: SpriteState { loading: false, ..s1.player_sprite },
            ..s1
        }),
        SpriteTarget::Enemy => n == (AppState {
            battle: match o.battle {
                Some(b) => Some(BattleState { message: n.battle.unwrap().message, ..b }),
                None => None,
            },
            enemy_sprite: SpriteState { loading: false, ..o.enemy_sprite },
            ..o
        }) && (o.battle is Some ==> n.battle.unwrap().message@ == "Sprite error: "@ + error),
    }
}

pub fn sprite_error(state: &mut AppState, target: SpriteTarget, error: &str) -> (r: Outcome<Effect>)
    ensures
        r.changed && r.effects@.len() == 0,
        sprite_failed(*old(state), *final(state), target, error@),
{
    match target {
        SpriteTarget::Player => {
            let mut msg = owned("Player sprite error: ");
            push_str(&mut msg, error);
            push_message(state, msg);
            let ghost s1 = *state;
            state.player_sprite.loading = false;
            assert(message_pushed(*old(state), s1, "Player sprite error: "@ + error@));
        },
        SpriteTarget::Enemy => {
            match state.battle.take() {
                Some(mut b) => {
                    let mut msg = owned("Sprite error: ");
                    push_str(&mut msg, error);
                    b.message = msg;
                    state.battle = Some(b);
                },
                None => {},
            }
            state.enemy_sprite.loading = false;
        },
    }
    Outcome::changed()
}

/// One animation step: a sprite of several frames moves to its next frame
/// (round to the first) and counts the tick; others stay.
pub open spec fn advanced(o: SpriteState, n: SpriteState, changed: bool) -> bool {
    match o.sprite {
        Some(d) => if d.frames@.len() > 1 {
            changed && n == (SpriteState {
                frame_tick: o.frame_tick.wrapping_add(1),
                frame_index: ((o.frame_index + 1) % (d.frames@.len() as int)) as usize,
                ..o
            })
        } else {
            !changed && n == o
        },
        None => !changed && n == o,
    }
}

pub fn advance_sprite(sprite: &mut SpriteState) -> (changed: bool)
    requires
        old(sprite).frame_index < usize::MAX,
    ensures
        advanced(*old(sprite), *final(sprite), changed),
{
    let len = match &sprite.sprite {
        Some(d) => d.frames.len(),
        None => return false,
    };
    if len <= 1 {
        return false;
    }
    sprite.frame_tick = sprite.frame_tick.wrapping_add(1);
    sprite.frame_index = (sprite.frame_index + 1) % len;
    true
}

/// One sprite state per member: missing ones added empty, extra ones
/// dropped.
pub open spec fn party_sprites_fitted(o: AppState, n: AppState) -> bool {
    &&& n.party_sprites@.len() == o.party@.len()
    &&& forall|i: int| 0 <= i < n.party_sprites@.len() ==> if i < o.party_sprites@.len() {
        #[trigger] n.party_sprites@[i] == o.party_sprites@[i]
    } else {
        n.party_sprites@[i].is_empty()
    }
    &&& n == (AppState { party_sprites: n.party_sprites, ..o })
}

pub fn ensure_party_sprites(state: &mut AppState)
    ensures
        party_sprites_fitted(*old(state), *final(state)),
{
    let len = state.party.len();
    if state.party_sprites.len() < len {
        while state.party_sprites.len() < len
            invariant
                state.party@.len() == len,
                old(state).party_sprites@.len() <= state.party_sprites@.len() <= len,
                *state == (AppState { party_sprites: state.party_sprites, ..*old(state) }),
                forall|i: int| 0 <= i < state.party_sprites@.len() ==> if i < old(state).party_sprites@.len() {
                    #[trigger] state.party_sprites@[i] == old(state).party_sprites@[i]
                } else {
                    state.party_sprites@[i].is_empty()
                },
            decreases len - state.party_sprites@.len(),
        {
            state.party_sprites.push(SpriteState::default());
        }
    } else if state.party_sprites.len() > len {
        state.party_sprites.truncate(len);
    }
}

/// Whether a member's sprite still has to be asked for.
pub open spec fn needs_sprite() -> spec_fn(SpriteState) -> bool {
    |sp: SpriteState| sp.sprite is None && !sp.loading
}

/// After fitting the sprite states to the party, the first member whose
/// sprite is neither there nor loading gets it asked for, when its species
/// has one (otherwise nothing more happens).
pub open spec fn party_sprite_requested(o: AppState, n: AppState, e: Option<Effect>) -> bool {
    if o.party@.len() == 0 {
        n == o && e is None
    } else {
        exists|s1: AppState| {
            &&& #[trigger] party_sprites_fitted(o, s1)
            &&& match crate::seqs::first_where(s1.party_sprites@, needs_sprite()) {
                Some(k) => match sprite_url_spec(o.party@[k].info) {
                    Some(url) => {
                        &&& e matches Some(Effect::LoadPartySprite { index, url: u }) && index == k && u == url
                        &&& n.party_sprites@ == s1.party_sprites@.update(k, SpriteState { loading: true, ..s1.party_sprites@[k] })
                        &&& n == (AppState { party_sprites: n.party_sprites, ..s1 })
                    },
                    None => e is None && n == s1,
                },
                None => e is None && n == s1,
            }
        }
    }
}

pub fn maybe_request_party_sprite(state: &mut AppState) -> (e: Option<Effect>)
    ensures
        party_sprite_requested(*old(state), *final(state), e),
{
    if state.party.len() == 0 {
        return None;
    }
    ensure_party_sprites(state);
    let ghost s1 = *state;
    let ghost p = needs_sprite();
    let mut idx: usize = 0;
    while idx < state.party.len()
        invariant
            idx <= state.party@.len(),
            state.party_sprites@.len() == state.party@.len(),
            *state == s1,
            party_sprites_fitted(*old(state), s1),
            p == needs_sprite(),
            forall|j: int| 0 <= j < idx ==> !p(#[trigger] state.party_sprites@[j]),
        decreases state.party.len() - idx,
    {
        let needs = state.party_sprites[idx].sprite.is_none() && !state.party_sprites[idx].loading;
        if needs {
            proof {
                crate::seqs::lemma_first_where_at(state.party_sprites@, p, idx as int);
            }
            let url = match sprite_url_for(&state.party[idx].info) {
                Some(u) => u,
                None => return None,
            };
            let mut sp = state.party_sprites.remove(idx);
            sp.loading = true;
            state.party_sprites.insert(idx, sp);
            assert(state.party_sprites@ =~= s1.party_sprites@.update(idx as int, SpriteState { loading: true, ..s1.party_sprites@[idx as int] }));
            return Some(Effect::LoadPartySprite { index: idx, url });
        }
        idx = idx + 1;
    }
    proof {
        crate::seqs::lemma_first_where_at(state.party_sprites@, p, idx as int);
    }
    None
}

/// Whether every sprite state can step without its frame counter
/// overflowing.
pub open spec fn frames_ok(s: AppState) -> bool {
    &&& s.enemy_sprite.frame_index < usize::MAX
    &&& s.player_sprite.frame_index < usize::MAX
    &&& forall|i: int| 0 <= i < s.party_sprites@.len() ==> (#[trigger] s.party_sprites@[i]).frame_index < usize::MAX
    &&& (s.pokemon_select matches Some(p) ==> p.preview_sprite.frame_index < usize::MAX)
}

/// The player's sprite: animated away from the route; on the route held on
/// its first frame.
pub open spec fn player_view_stepped(o: AppState, n: AppState, c: bool) -> bool {
    if o.mode != GameMode::Overworld {
        advanced(o.player_sprite, n.player_sprite, c) && n == (AppState { player_sprite: n.player_sprite, ..o })
    } else if o.player_sprite.frame_index != 0 || o.player_sprite.frame_tick != 0 {
        c && n == (AppState { player_sprite: SpriteState { frame_index: 0, frame_tick: 0, ..o.player_sprite }, ..o })
    } else {
        !c && n == o
    }
}

fn step_player_view(state: &mut AppState) -> (c: bool)
    requires
        old(state).player_sprite.frame_index < usize::MAX,
    ensures
        player_view_stepped(*old(state), *final(state), c),
{
    if state.mode != GameMode::Overworld {
        advance_sprite(&mut state.player_sprite)
    } else if state.player_sprite.frame_index != 0 || state.player_sprite.frame_tick != 0 {
        state.player_sprite.frame_index = 0;
        state.player_sprite.frame_tick = 0;
        true
    } else {
        false
    }
}

/// Every member's sprite stepped; the result says whether any moved.
pub open spec fn party_stepped(o: AppState, n: AppState, c: bool) -> bool {
    &&& n.party_sprites@.len() == o.party_sprites@.len()
    &&& forall|i: int| 0 <= i < o.party_sprites@.len() ==> advanced(o.party_sprites@[i], #[trigger] n.party_sprites@[i], changed_at(o.party_sprites@[i]))
    &&& c == exists|i: int| 0 <= i < o.party_sprites@.len() && #[trigger] changed_at(o.party_sprites@[i])
    &&& n == (AppState { party_sprites: n.party_sprites, ..o })
}

/// Whether a sprite moves when stepped: it has several frames.
pub open spec fn changed_at(sp: SpriteState) -> bool {
    sp.sprite matches Some(d) && d.frames@.len() > 1
}

fn step_party(state: &mut AppState) -> (c: bool)
    requires
        forall|i: int| 0 <= i < old(state).party_sprites@.len() ==> (#[trigger] old(state).party_sprites@[i]).frame_index < usize::MAX,
    ensures
        party_stepped(*old(state), *final(state), c),
{
    let mut c = false;
    let mut i: usize = 0;
    while i < state.party_sprites.len()
        invariant
            i <= state.party_sprites@.len(),
            state.party_sprites@.len() == old(state).party_sprites@.len(),
            forall|k: int| 0 <= k < old(state).party_sprites@.len() ==> (#[trigger] old(state).party_sprites@[k]).frame_index < usize::MAX,
            forall|k: int| 0 <= k < i ==> advanced(old(state).party_sprites@[k], #[trigger] state.party_sprites@[k], changed_at(old(state).party_sprites@[k])),
            forall|k: int| i <= k < state.party_sprites@.len() ==> #[trigger] state.party_sprites@[k] == old(state).party_sprites@[k],
            c == exists|k: int| 0 <= k < i && #[trigger] changed_at(old(state).party_sprites@[k]),
            *state == (AppState { party_sprites: state.party_sprites, ..*old(state) }),
        decreases state.party_sprites.len() - i,
    {
        let mut sp = state.party_sprites.remove(i);
        let moved = advance_sprite(&mut sp);
        state.party_sprites.insert(i, sp);
        assert(moved == changed_at(old(state).party_sprites@[i as int]));
        c = moved || c;
        i = i + 1;
    }
    c
}

/// The starter preview's sprite stepped, when choosing a starter.
pub open spec fn preview_stepped(o: AppState, n: AppState, c: bool) -> bool {
    match o.pokemon_select {
        Some(p) => n.pokemon_select matches Some(np) && advanced(p.preview_sprite, np.preview_sprite, c) && n == (AppState {
            pokemon_select: Some(crate::poketui::state::PokemonSelectState { preview_sprite: np.preview_sprite, ..p }),
            ..o
        }),
        None => !c && n == o,
    }
}

fn step_preview(state: &mut AppState) -> (c: bool)
    requires
        old(state).pokemon_select matches Some(p) ==> p.preview_sprite.frame_index < usize::MAX,
    ensures
        preview_stepped(*old(state), *final(state), c),
{
    match state.pokemon_select.take() {
        Some(mut p) => {
            let c = advance_sprite(&mut p.preview_sprite);
            state.pokemon_select = Some(p);
            c
        },
        None => false,
    }
}

/// One tick: the clock counts, the enemy's sprite steps, the player's
/// sprite steps or is held, the members' sprites are fitted to the party
/// and step, the starter preview steps, and a missing member sprite may be
/// asked for. It reports a change when something moved or was asked for.
pub open spec fn ticked(o: AppState, n: AppState, r: Outcome<Effect>) -> bool {
    exists|s1: AppState, s2: AppState, s3: AppState, s4: AppState, s5: AppState, c1: bool, c2: bool, c3: bool, c4: bool, e: Option<Effect>| {
        &&& s1 == (AppState { tick: o.tick.wrapping_add(1), enemy_sprite: s1.enemy_sprite, ..o })
        &&& #[trigger] advanced(o.enemy_sprite, s1.enemy_sprite, c1)
        &&& #[trigger] player_view_stepped(s1, s2, c2)
        &&& #[trigger] party_sprites_fitted(s2, s3)
        &&& #[trigger] party_stepped(s3, s4, c3)
        &&& #[trigger] preview_stepped(s4, s5, c4)
        &&& #[trigger] party_sprite_requested(s5, n, e)
        &&& match e {
            Some(x) => r.changed && r.effects@ == seq![x],
            None => r.changed == (c1 || c2 || c3 || c4) && r.effects@.len() == 0,
        }
    }
}

pub fn tick_animation(state: &mut AppState) -> (r: Outcome<Effect>)
    requires
        frames_ok(*old(state)),
    ensures
        ticked(*old(state), *final(state), r),
{
    state.tick = state.tick.wrapping_add(1);
    let c1 = advance_sprite(&mut state.enemy_sprite);
    let ghost s1 = *state;
    let c2 = step_player_view(state);
    let ghost s2 = *state;
    ensure_party_sprites(state);
    let ghost s3 = *state;
    proof {
        assert forall|i: int| 0 <= i < s3.party_sprites@.len() implies (#[trigger] s3.party_sprites@[i]).frame_index < usize::MAX by {
            if i < s2.party_sprites@.len() {
                assert(s3.party_sprites@[i] == s2.party_sprites@[i]);
            }
        }
    }
    let c3 = step_party(state);
    let ghost s4 = *state;
    let c4 = step_preview(state);
    let ghost s5 = *state;
    let e = maybe_request_party_sprite(state);
    assert(advanced(old(state).enemy_sprite, s1.enemy_sprite, c1));
    assert(player_view_stepped(s1, s2, c2));
    assert(party_sprites_fitted(s2, s3));
    assert(party_stepped(s3, s4, c3));
    assert(preview_stepped(s4, s5, c4));
    match e {
        Some(x) => Outcome::changed_with(x),
        None => {
            if c1 || c2 || c3 || c4 {
                Outcome::changed()
            } else {
                Outcome::unchanged()
            }
        },
    }
}

} // verus!
