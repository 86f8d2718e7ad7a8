//! The Pokedex browser's reducer: how each action changes the state and
//! what it asks the runtime to fetch.
use vstd::prelude::*;
use vstd::string::StrSliceExecFns;
use crate::outcome::Outcome;
use crate::pokeapi::action::{effect_view, effects_view, Action, Effect, EffectView};
use crate::pokeapi::state::{
    AppState, DetailMode, EvolutionChain, PokemonDetail, PokemonSpecies, focus_after,
    focus_before, filtered, query_key, selected_entry_spec,
};
use crate::pokeapi::store::{Cache, NameSet};
use crate::seqs::{first_where, lemma_first_where_at};
use crate::order::{lemma_lt_asymmetric, lemma_lt_irreflexive, lemma_lt_total, lemma_lt_transitive, lemma_sorted_unique, seq_lt, str_less, strictly_sorted};
use crate::pokeapi::state::{EncounterLocation, EncounterVersion};
use crate::text::{chars_of, owned, push_str, str_eq, string_of, string_pop, string_push};

verus! {

/// `url` without its trailing slashes.
pub open spec fn strip_slashes(url: Seq<char>) -> Seq<char>
    decreases url.len(),
{
    if url.len() > 0 && url.last() == '/' {
        strip_slashes(url.drop_last())
    } else {
        url
    }
}

/// The part of `s` after its last slash (all of `s` without one).
pub open spec fn after_last_slash(s: Seq<char>) -> Seq<char>
    decreases s.len(),
{
    if s.len() == 0 {
        s
    } else if s.last() == '/' {
        seq![]
    } else {
        after_last_slash(s.drop_last()).push(s.last())
    }
}

/// The id of an evolution chain: the last path segment of its URL.
pub open spec fn evo_id(url: Seq<char>) -> Seq<char> {
    after_last_slash(strip_slashes(url))
}

pub fn evolution_id_from_url(url: &str) -> (id: String)
    ensures
        id@ == evo_id(url@),
{
    let v = chars_of(url);
    let mut end = v.len();
    assert(v@.subrange(0, end as int) =~= v@);
    while end > 0 && v[end - 1] == '/'
        invariant
            end <= v@.len(),
            strip_slashes(v@) == strip_slashes(v@.subrange(0, end as int)),
        decreases end,
    {
        assert(v@.subrange(0, end as int).drop_last() =~= v@.subrange(0, end - 1));
        end = end - 1;
    }
    let ghost stripped = v@.subrange(0, end as int);
    assert(strip_slashes(stripped) == stripped);
    let mut start = end;
    assert(stripped.subrange(end as int, end as int) =~= Seq::<char>::empty());
    assert(after_last_slash(stripped.subrange(0, end as int)) == after_last_slash(stripped)) by {
        assert(stripped.subrange(0, end as int) =~= stripped);
    }
    while start > 0 && v[start - 1] != '/'
        invariant
            start <= end <= v@.len(),
            stripped == v@.subrange(0, end as int),
            after_last_slash(stripped) == after_last_slash(stripped.subrange(0, start as int))
                + stripped.subrange(start as int, end as int),
        decreases start,
    {
        let ghost pre = stripped.subrange(0, start as int);
        assert(pre.drop_last() =~= stripped.subrange(0, start - 1));
        assert(pre.last() == v@[start - 1]);
        assert(after_last_slash(pre) == after_last_slash(stripped.subrange(0, start - 1)).push(v@[start - 1]));
        assert(stripped.subrange(start - 1, end as int) =~= seq![v@[start - 1]] + stripped.subrange(start as int, end as int));
        assert(after_last_slash(stripped.subrange(0, start - 1)).push(v@[start - 1]) + stripped.subrange(start as int, end as int)
            =~= after_last_slash(stripped.subrange(0, start - 1)) + stripped.subrange(start - 1, end as int));
        start = start - 1;
    }
    proof {
        let pre = stripped.subrange(0, start as int);
        if start > 0 {
            assert(pre.last() == v@[start - 1]);
            assert(after_last_slash(pre) =~= Seq::<char>::empty());
        } else {
            assert(pre.len() == 0);
        }
        assert(seq![] + stripped.subrange(start as int, end as int) =~= v@.subrange(start as int, end as int));
    }
    string_of(&v, start, end)
}

/// A cursor at `current` moved by `delta` within a list of `len` items:
/// kept at least 0 and below `len`. Positions and lengths are read as
/// 16-bit signed numbers, as the list widgets count them.
pub open spec fn clamped_index(current: usize, len: usize, delta: i16) -> usize {
    if len == 0 {
        0
    } else {
        let next = (current as i16) as int + delta;
        let l = (len as i16) as int;
        if next < 0 {
            0
        } else if next >= l {
            (l - 1) as usize
        } else {
            next as usize
        }
    }
}

pub fn clamp_index(current: usize, len: usize, delta: i16) -> (r: usize)
    ensures
        r == clamped_index(current, len, delta),
{
    if len == 0 {
        return 0;
    }
    #[verifier::truncate]
    let base = current as i16;
    #[verifier::truncate]
    let l = len as i16;
    let next = base as i32 + delta as i32;
    if next < 0 {
        0
    } else if next >= l as i32 {
        #[verifier::truncate]
        let r = (l as i32 - 1) as usize;
        r
    } else {
        next as usize
    }
}

/// Rows of the dex list shown at once: the terminal height less eight.
pub open spec fn page_size(s: AppState) -> usize {
    (if s.terminal_size.1 >= 8 { s.terminal_size.1 - 8 } else { 0 }) as usize
}

fn list_page_size(state: &AppState) -> (n: usize)
    ensures
        n == page_size(*state),
{
    state.terminal_size.1.saturating_sub(8) as usize
}

/// The image to show for a detail: the animated sprite, else the front one.
pub open spec fn sprite_url(d: PokemonDetail) -> Option<String> {
    match d.sprite_animated {
        Some(u) => Some(u),
        None => d.sprite_front_default,
    }
}

/// The move or ability detail the detail pane needs and has not cached:
/// the entry under the cursor of the move or ability tab.
pub open spec fn move_effects(s: AppState, d: PokemonDetail) -> Seq<EffectView> {
    match s.detail_mode {
        DetailMode::Move => if s.selected_move_index < d.moves@.len() && s.move_cache.get_spec(
            d.moves@[s.selected_move_index as int]@,
        ) is None {
            seq![EffectView::LoadMoveDetail(d.moves@[s.selected_move_index as int]@)]
        } else {
            seq![]
        },
        DetailMode::Ability => if s.selected_ability_index < d.abilities@.len() && s.ability_cache.get_spec(
            d.abilities@[s.selected_ability_index as int]@,
        ) is None {
            seq![EffectView::LoadAbilityDetail(d.abilities@[s.selected_ability_index as int]@)]
        } else {
            seq![]
        },
        _ => seq![],
    }
}

fn detail_move_effects(state: &AppState, detail: &PokemonDetail) -> (r: Vec<Effect>)
    ensures
        effects_view(r@) == move_effects(*state, *detail),
{
    let mut effects: Vec<Effect> = Vec::new();
    match state.detail_mode {
        DetailMode::Move => {
            if state.selected_move_index < detail.moves.len() {
                let name = &detail.moves[state.selected_move_index];
                if !state.move_cache.contains_key(name.as_str()) {
                    effects.push(Effect::LoadMoveDetail { name: name.clone() });
                }
            }
        },
        DetailMode::Ability => {
            if state.selected_ability_index < detail.abilities.len() {
                let name = &detail.abilities[state.selected_ability_index];
                if !state.ability_cache.contains_key(name.as_str()) {
                    effects.push(Effect::LoadAbilityDetail { name: name.clone() });
                }
            }
        },
        _ => {},
    }
    assert(effects_view(effects@) =~= move_effects(*state, *detail));
    effects
}

/// The encounters the encounter tab needs for `name` and has not cached.
pub open spec fn encounter_effects(s: AppState, name: Seq<char>) -> Seq<EffectView> {
    if s.detail_mode == DetailMode::Encounter && s.encounter_cache.get_spec(name) is None {
        seq![EffectView::LoadEncounters(name)]
    } else {
        seq![]
    }
}

fn detail_encounter_effects(state: &mut AppState, name: &str) -> (r: Vec<Effect>)
    ensures
        effects_view(r@) == encounter_effects(*old(state), name@),
        *final(state) == (AppState {
            encounter_loading: if r@.len() > 0 { true } else { old(state).encounter_loading },
            ..*old(state)
        }),
{
    let mut effects: Vec<Effect> = Vec::new();
    if state.detail_mode == DetailMode::Encounter && !state.encounter_cache.contains_key(name) {
        state.encounter_loading = true;
        effects.push(Effect::LoadEncounters { name: owned(name) });
    }
    assert(effects_view(effects@) =~= encounter_effects(*old(state), name@));
    effects
}

/// Matchups not cached for the given types, in order.
pub open spec fn missing_matchups(types: Seq<String>, cache: Cache<crate::pokeapi::state::TypeMatchup>) -> Seq<EffectView>
    decreases types.len(),
{
    if types.len() == 0 {
        seq![]
    } else {
        let rest = missing_matchups(types.drop_last(), cache);
        if cache.get_spec(types.last()@) is None {
            rest.push(EffectView::LoadTypeMatchup(types.last()@))
        } else {
            rest
        }
    }
}

/// The matchups the matchup tab needs and has not cached.
pub open spec fn matchup_effects(s: AppState, types: Seq<String>) -> Seq<EffectView> {
    if s.detail_mode == DetailMode::Matchup {
        missing_matchups(types, s.type_matchup_cache)
    } else {
        seq![]
    }
}

fn detail_matchup_effects(state: &mut AppState, types: &Vec<String>) -> (r: Vec<Effect>)
    ensures
        effects_view(r@) == matchup_effects(*old(state), types@),
        *final(state) == (AppState { type_matchup_loading: r@.len() > 0, ..*old(state) }),
{
    let mut effects: Vec<Effect> = Vec::new();
    if state.detail_mode != DetailMode::Matchup {
        state.type_matchup_loading = false;
        return effects;
    }
    let mut i: usize = 0;
    while i < types.len()
        invariant
            i <= types@.len(),
            *state == *old(state),
            state.detail_mode == DetailMode::Matchup,
            effects_view(effects@) == missing_matchups(types@.subrange(0, i as int), state.type_matchup_cache),
        decreases types.len() - i,
    {
        assert(types@.subrange(0, i + 1).drop_last() =~= types@.subrange(0, i as int));
        if !state.type_matchup_cache.contains_key(types[i].as_str()) {
            let ghost before = effects@;
            effects.push(Effect::LoadTypeMatchup { name: types[i].clone() });
            assert(effects_view(effects@) =~= effects_view(before).push(EffectView::LoadTypeMatchup(types@[i as int]@)));
        }
        i = i + 1;
    }
    assert(types@.subrange(0, types@.len() as int) =~= types@);
    state.type_matchup_loading = effects.len() > 0;
    effects
}

/// The evolution chain `name`'s species points to, when it is not cached.
pub open spec fn evolution_effects(s: AppState, name: Seq<char>) -> Seq<EffectView> {
    match s.species.get_spec(name) {
        Some(sp) => match sp.evolution_chain_url {
            Some(url) => if s.evolution.get_spec(evo_id(url@)) is None {
                seq![EffectView::LoadEvolutionChain(evo_id(url@), url@)]
            } else {
                seq![]
            },
            None => seq![],
        },
        None => seq![],
    }
}

fn evolution_follow_up(state: &mut AppState, name: &str) -> (r: Vec<Effect>)
    ensures
        effects_view(r@) == evolution_effects(*old(state), name@),
        *final(state) == (AppState {
            evolution_loading: if r@.len() > 0 { true } else { old(state).evolution_loading },
            ..*old(state)
        }),
{
    let mut effects: Vec<Effect> = Vec::new();
    let url = match state.species.get(name) {
        None => return effects,
        Some(sp) => match &sp.evolution_chain_url {
            None => return effects,
            Some(u) => u.clone(),
        },
    };
    let id = evolution_id_from_url(url.as_str());
    if !state.evolution.contains_key(id.as_str()) {
        state.evolution_loading = true;
        effects.push(Effect::LoadEvolutionChain { id, url });
    }
    assert(effects_view(effects@) =~= evolution_effects(*old(state), name@));
    effects
}

/// The species of `name`, when not cached.
pub open spec fn species_effects(s: AppState, name: Seq<char>) -> Seq<EffectView> {
    if s.species.get_spec(name) is None {
        seq![EffectView::LoadPokemonSpecies(name)]
    } else {
        seq![]
    }
}

/// The sprite of detail `d`, when not cached and it has one.
pub open spec fn sprite_effects(s: AppState, name: Seq<char>, d: PokemonDetail) -> Seq<EffectView> {
    if s.sprite_cache.get_spec(name) is None && sprite_url(d) is Some {
        seq![EffectView::LoadSprite(name, sprite_url(d)->0@)]
    } else {
        seq![]
    }
}

/// What showing entry `name` asks for: its detail when not cached (and
/// nothing more), otherwise its species, sprite, tab data and evolution
/// chain as far as they are not cached; the matching loading flags are set.
pub open spec fn follow_up_post(o: AppState, n: AppState, name: Seq<char>, effs: Seq<EffectView>) -> bool {
    match o.details.get_spec(name) {
        None => {
            &&& effs == seq![EffectView::LoadPokemonDetail(name)]
            &&& n == (AppState { detail_loading: true, ..o })
        },
        Some(d) => {
            let spr = sprite_effects(o, name, d);
            let enc = encounter_effects(o, name);
            let mu = matchup_effects(o, d.types@);
            let evo = evolution_effects(o, name);
            &&& effs == species_effects(o, name) + spr + move_effects(o, d) + enc + mu + evo
            &&& n == (AppState {
                sprite_loading: if spr.len() > 0 { true } else { o.sprite_loading },
                encounter_loading: if enc.len() > 0 { true } else { o.encounter_loading },
                type_matchup_loading: mu.len() > 0,
                evolution_loading: if evo.len() > 0 { true } else { o.evolution_loading },
                ..o
            })
        },
    }
}

proof fn lemma_effects_view_concat(a: Seq<Effect>, b: Seq<Effect>)
    ensures
        effects_view(a + b) == effects_view(a) + effects_view(b),
{
    assert(effects_view(a + b) =~= effects_view(a) + effects_view(b));
}

/// The tab data and evolution chain part of a follow-up.
fn follow_up_tail(state: &mut AppState, name: &str, types: &Vec<String>, moves: Vec<Effect>) -> (r: Vec<Effect>)
    ensures
        effects_view(r@) == effects_view(moves@) + encounter_effects(*old(state), name@) + matchup_effects(*old(state), types@)
            + evolution_effects(*old(state), name@),
        *final(state) == (AppState {
            encounter_loading: if encounter_effects(*old(state), name@).len() > 0 { true } else { old(state).encounter_loading },
            type_matchup_loading: matchup_effects(*old(state), types@).len() > 0,
            evolution_loading: if evolution_effects(*old(state), name@).len() > 0 { true } else { old(state).evolution_loading },
            ..*old(state)
        }),
{
    let mut effects = moves;
    let ghost e0 = effects@;
    let mut enc = detail_encounter_effects(state, name);
    let ghost ev = enc@;
    effects.append(&mut enc);
    proof {
        lemma_effects_view_concat(e0, ev);
    }
    let ghost e1 = effects@;
    let mut mu = detail_matchup_effects(state, types);
    let ghost mv = mu@;
    effects.append(&mut mu);
    proof {
        lemma_effects_view_concat(e1, mv);
    }
    let ghost e2 = effects@;
    let mut evo = evolution_follow_up(state, name);
    let ghost vv = evo@;
    effects.append(&mut evo);
    proof {
        lemma_effects_view_concat(e2, vv);
    }
    effects
}

/// The sprite URL, types and tab requests of the cached detail `name`.
fn detail_parts(state: &AppState, name: &str) -> (r: (Option<String>, Vec<String>, Vec<Effect>))
    requires
        state.details.get_spec(name@) is Some,
    ensures
        ({
            let d = state.details.get_spec(name@)->0;
            &&& match sprite_url(d) {
                Some(u) => r.0 matches Some(v) && v@ == u@,
                None => r.0 is None,
            }
            &&& r.1@ == d.types@
            &&& effects_view(r.2@) == move_effects(*state, d)
        }),
{
    match state.details.get(name) {
        Some(d) => {
            let url = match &d.sprite_animated {
                Some(u) => Some(u.clone()),
                None => match &d.sprite_front_default {
                    Some(u) => Some(u.clone()),
                    None => None,
                },
            };
            let types = d.types.clone();
            assert(types@ =~= d.types@);
            (url, types, detail_move_effects(state, d))
        },
        None => (None, Vec::new(), Vec::new()),
    }
}

/// The head of a follow-up for a cached detail: its species and sprite.
fn follow_up_head(state: &mut AppState, name: &str, url: Option<String>, Ghost(d): Ghost<PokemonDetail>) -> (r: Vec<Effect>)
    requires
        match sprite_url(d) {
            Some(u) => url matches Some(v) && v@ == u@,
            None => url is None,
        },
    ensures
        effects_view(r@) == species_effects(*old(state), name@) + sprite_effects(*old(state), name@, d),
        *final(state) == (AppState {
            sprite_loading: if sprite_effects(*old(state), name@, d).len() > 0 {
                true
            } else {
                old(state).sprite_loading
            },
            ..*old(state)
        }),
{
    let mut effects: Vec<Effect> = Vec::new();
    if !state.species.contains_key(name) {
        effects.push(Effect::LoadPokemonSpecies { name: owned(name) });
    }
    let ghost e1 = effects@;
    assert(effects_view(e1) =~= species_effects(*old(state), name@));
    if !state.sprite_cache.contains_key(name) {
        if let Some(u) = url {
            state.sprite_loading = true;
            effects.push(Effect::LoadSprite { name: owned(name), url: u });
        }
    }
    assert(effects_view(effects@) =~= species_effects(*old(state), name@) + sprite_effects(*old(state), name@, d));
    effects
}

#[verifier::rlimit(100)]
#[verifier::spinoff_prover]
proof fn lemma_follow_up_compose(
    o: AppState,
    mid: AppState,
    n: AppState,
    name: Seq<char>,
    d: PokemonDetail,
    headv: Seq<EffectView>,
    tailv: Seq<EffectView>,
    effs: Seq<EffectView>,
)
    requires
        o.details.get_spec(name) == Some(d),
        headv == species_effects(o, name) + sprite_effects(o, name, d),
        mid == (AppState {
            sprite_loading: if sprite_effects(o, name, d).len() > 0 { true } else { o.sprite_loading },
            ..o
        }),
        tailv == move_effects(mid, d) + encounter_effects(mid, name) + matchup_effects(mid, d.types@)
            + evolution_effects(mid, name),
        n == (AppState {
            encounter_loading: if encounter_effects(mid, name).len() > 0 { true } else { mid.encounter_loading },
            type_matchup_loading: matchup_effects(mid, d.types@).len() > 0,
            evolution_loading: if evolution_effects(mid, name).len() > 0 { true } else { mid.evolution_loading },
            ..mid
        }),
        effs == headv + tailv,
    ensures
        follow_up_post(o, n, name, effs),
{
    assert(mid.detail_mode == o.detail_mode && mid.move_cache == o.move_cache && mid.ability_cache == o.ability_cache);
    assert(mid.selected_move_index == o.selected_move_index && mid.selected_ability_index == o.selected_ability_index);
    assert(mid.encounter_cache == o.encounter_cache && mid.type_matchup_cache == o.type_matchup_cache);
    assert(mid.species == o.species && mid.evolution == o.evolution);
    let m = move_effects(o, d);
    let enc = encounter_effects(o, name);
    let mu = matchup_effects(o, d.types@);
    let evo = evolution_effects(o, name);
    assert(move_effects(mid, d) == m);
    assert(encounter_effects(mid, name) == enc);
    assert(matchup_effects(mid, d.types@) == mu);
    assert(evolution_effects(mid, name) == evo);
    assert(effs =~= species_effects(o, name) + sprite_effects(o, name, d) + m + enc + mu + evo);
}

fn detail_follow_up(state: &mut AppState, name: &str) -> (r: Vec<Effect>)
    ensures
        follow_up_post(*old(state), *final(state), name@, effects_view(r@)),
{
    if !state.details.contains_key(name) {
        let mut effects: Vec<Effect> = Vec::new();
        state.detail_loading = true;
        effects.push(Effect::LoadPokemonDetail { name: owned(name) });
        assert(effects_view(effects@) =~= seq![EffectView::LoadPokemonDetail(name@)]);
        return effects;
    }
    let ghost d = state.details.get_spec(name@)->0;
    let (url, types, moves) = detail_parts(state, name);
    let mut effects = follow_up_head(state, name, url, Ghost(d));
    let ghost head = effects@;
    let ghost mid = *state;
    assert(effects_view(moves@) == move_effects(mid, d));
    let mut tail = follow_up_tail(state, name, &types, moves);
    let ghost tv = tail@;
    effects.append(&mut tail);
    proof {
        lemma_effects_view_concat(head, tv);
        lemma_follow_up_compose(*old(state), mid, *state, name@, d, effects_view(head), effects_view(tv), effects_view(effects@));
    }
    effects
}

/// Whether a string is `name`.
pub open spec fn named(name: Seq<char>) -> spec_fn(String) -> bool {
    |st: String| st@ == name
}

/// The evolution chain of the entry shown, when its species and chain are
/// cached.
pub open spec fn current_chain(s: AppState) -> Option<EvolutionChain> {
    match s.detail_name {
        None => None,
        Some(n) => match s.species.get_spec(n@) {
            None => None,
            Some(sp) => match sp.evolution_chain_url {
                None => None,
                Some(u) => s.evolution.get_spec(evo_id(u@)),
            },
        },
    }
}

fn current_evolution_chain(state: &AppState) -> (r: Option<&EvolutionChain>)
    ensures
        match current_chain(*state) {
            Some(c) => r matches Some(x) && *x == c,
            None => r is None,
        },
{
    let species = match state.current_species() {
        Some(sp) => sp,
        None => return None,
    };
    let url = match &species.evolution_chain_url {
        Some(u) => u,
        None => return None,
    };
    let id = evolution_id_from_url(url.as_str());
    state.evolution.get(id.as_str())
}

fn stage_position(stages: &Vec<String>, name: &str) -> (r: Option<usize>)
    ensures
        match first_where(stages@, named(name@)) {
            Some(i) => r matches Some(k) && k as int == i,
            None => r is None,
        },
        r matches Some(k) ==> k < stages@.len(),
{
    let ghost p = named(name@);
    let mut i: usize = 0;
    while i < stages.len()
        invariant
            i <= stages@.len(),
            p == named(name@),
            forall|j: int| 0 <= j < i ==> !p(#[trigger] stages@[j]),
        decreases stages.len() - i,
    {
        if str_eq(stages[i].as_str(), name) {
            proof {
                lemma_first_where_at(stages@, p, i as int);
            }
            return Some(i);
        }
        i = i + 1;
    }
    proof {
        lemma_first_where_at(stages@, p, i as int);
    }
    None
}

/// The evolution cursor once the shown entry is found in its chain.
pub open spec fn synced_evolution_index(s: AppState) -> usize {
    match (s.detail_name, current_chain(s)) {
        (Some(n), Some(c)) => match first_where(c.stages@, named(n@)) {
            Some(i) => i as usize,
            None => s.evolution_selected_index,
        },
        _ => s.evolution_selected_index,
    }
}

fn sync_evolution_selection(state: &mut AppState)
    ensures
        *final(state) == (AppState { evolution_selected_index: synced_evolution_index(*old(state)), ..*old(state) }),
{
    let pos = match &state.detail_name {
        None => return,
        Some(name) => match current_evolution_chain(state) {
            None => return,
            Some(chain) => stage_position(&chain.stages, name.as_str()),
        },
    };
    if let Some(i) = pos {
        state.evolution_selected_index = i;
    }
}

/// The state once entry `name` is shown, before its data is asked for: it
/// is marked seen, the sprite animation and the detail tabs start over,
/// the tab loading flags clear and the evolution cursor finds it.
pub open spec fn show_stage(o: AppState, m: AppState, name: Seq<char>) -> bool {
    &&& m.detail_name matches Some(x) && x@ == name
    &&& forall|k: Seq<char>| #[trigger] m.seen.has(k) == (o.seen.has(k) || k == name)
    &&& m.evolution_selected_index == synced_evolution_index(AppState { detail_name: m.detail_name, ..o })
    &&& m == (AppState {
        detail_name: m.detail_name,
        seen: m.seen,
        sprite_frame_index: 0,
        sprite_frame_tick: 0,
        detail_mode: DetailMode::General,
        selected_move_index: 0,
        selected_ability_index: 0,
        selected_encounter_index: 0,
        encounter_loading: false,
        type_matchup_loading: false,
        evolution_selected_index: m.evolution_selected_index,
        ..o
    })
}

/// Showing entry `name`: nothing when it is already shown, otherwise the
/// show stage and then its follow-up requests.
pub open spec fn select_detail_post(o: AppState, n: AppState, name: Seq<char>, effs: Seq<EffectView>) -> bool {
    if o.detail_name matches Some(x) && x@ == name {
        n == o && effs.len() == 0
    } else {
        exists|m: AppState| #[trigger] show_stage(o, m, name) && follow_up_post(m, n, name, effs)
    }
}

fn select_detail(state: &mut AppState, name: &str) -> (r: Vec<Effect>)
    ensures
        select_detail_post(*old(state), *final(state), name@, effects_view(r@)),
{
    let same = match &state.detail_name {
        Some(d) => str_eq(d.as_str(), name),
        None => false,
    };
    if same {
        return Vec::new();
    }
    state.detail_name = Some(owned(name));
    state.seen.insert(owned(name));
    state.reset_sprite_animation();
    state.reset_detail_selection();
    state.encounter_loading = false;
    state.type_matchup_loading = false;
    sync_evolution_selection(state);
    let ghost m = *state;
    assert(show_stage(*old(state), m, name@));
    detail_follow_up(state, name)
}

/// Showing the entry under the cursor; with none, nothing is shown.
pub open spec fn select_current_post(o: AppState, n: AppState, effs: Seq<EffectView>) -> bool {
    match selected_entry_spec(o) {
        None => n == (AppState { detail_name: None, ..o }) && effs.len() == 0,
        Some(e) => select_detail_post(o, n, e.name@, effs),
    }
}

fn select_current(state: &mut AppState) -> (r: Vec<Effect>)
    ensures
        select_current_post(*old(state), *final(state), effects_view(r@)),
{
    match state.selected_name() {
        None => {
            state.detail_name = None;
            let v: Vec<Effect> = Vec::new();
            assert(effects_view(v@).len() == 0);
            v
        },
        Some(name) => select_detail(state, name.as_str()),
    }
}

/// The current detail, when it is cached.
pub open spec fn current_detail_spec(s: AppState) -> Option<PokemonDetail> {
    match s.detail_name {
        Some(n) => s.details.get_spec(n@),
        None => None,
    }
}

/// After the tab or its cursor changed: the data the tab now needs.
pub open spec fn tab_effects_post(o: AppState, n: AppState, r: Outcome<Effect>) -> bool {
    match current_detail_spec(o) {
        None => n == o && r.changed && r.effects@.len() == 0,
        Some(d) => {
            let enc = encounter_effects(o, d.name@);
            let mu = matchup_effects(o, d.types@);
            &&& r.changed
            &&& effects_view(r.effects@) == move_effects(o, d) + enc + mu
            &&& n == (AppState {
                encounter_loading: if enc.len() > 0 { true } else { o.encounter_loading },
                type_matchup_loading: mu.len() > 0,
                ..o
            })
        },
    }
}

fn detail_selection_effects(state: &mut AppState) -> (r: Outcome<Effect>)
    ensures
        tab_effects_post(*old(state), *final(state), r),
{
    let (name, types, moves) = match state.current_detail() {
        None => return Outcome::changed(),
        Some(d) => {
            let types = d.types.clone();
            assert(types@ =~= d.types@);
            (d.name.clone(), types, detail_move_effects(state, d))
        },
    };
    let mut effects = moves;
    let ghost e0 = effects@;
    let mut enc = detail_encounter_effects(state, name.as_str());
    let ghost ev = enc@;
    effects.append(&mut enc);
    proof {
        lemma_effects_view_concat(e0, ev);
    }
    let ghost e1 = effects@;
    let mut mu = detail_matchup_effects(state, &types);
    let ghost mv = mu@;
    effects.append(&mut mu);
    proof {
        lemma_effects_view_concat(e1, mv);
        let o = *old(state);
        let d = current_detail_spec(o)->0;
        assert(effects_view(effects@) == move_effects(o, d) + encounter_effects(o, d.name@) + matchup_effects(o, d.types@));
        assert(effects_view(ev).len() == ev.len());
        assert(effects_view(mv).len() == mv.len());
        assert(*state == (AppState {
            encounter_loading: if encounter_effects(o, d.name@).len() > 0 { true } else { o.encounter_loading },
            type_matchup_loading: matchup_effects(o, d.types@).len() > 0,
            ..o
        }));
    }
    if effects.len() == 0 {
        assert(effects_view(effects@) =~= Seq::<EffectView>::empty());
        let r = Outcome::changed();
        assert(effects_view(r.effects@) =~= Seq::<EffectView>::empty());
        r
    } else {
        Outcome::changed_with_many(effects)
    }
}

/// The number of encounter locations cached for the entry shown.
pub open spec fn encounter_count(s: AppState) -> Option<int> {
    match s.detail_name {
        Some(n) => match s.encounter_cache.get_spec(n@) {
            Some(v) => Some(v@.len() as int),
            None => None,
        },
        None => None,
    }
}

fn encounter_len(state: &AppState) -> (r: Option<usize>)
    ensures
        match encounter_count(*state) {
            Some(k) => r matches Some(m) && m as int == k,
            None => r is None,
        },
{
    match &state.detail_name {
        Some(n) => match state.encounter_cache.get(n.as_str()) {
            Some(v) => Some(v.len()),
            None => None,
        },
        None => None,
    }
}

/// Moving the cursor of the move, ability or encounter tab by `delta`;
/// reports whether it moved.
pub open spec fn advance_post(o: AppState, n: AppState, delta: i16, moved: bool) -> bool {
    match current_detail_spec(o) {
        None => !moved && n == o,
        Some(d) => match o.detail_mode {
            DetailMode::Move => {
                let i = clamped_index(o.selected_move_index, d.moves@.len() as usize, delta);
                if d.moves@.len() == 0 || i == o.selected_move_index {
                    !moved && n == o
                } else {
                    moved && n == (AppState { selected_move_index: i, ..o })
                }
            },
            DetailMode::Ability => {
                let i = clamped_index(o.selected_ability_index, d.abilities@.len() as usize, delta);
                if d.abilities@.len() == 0 || i == o.selected_ability_index {
                    !moved && n == o
                } else {
                    moved && n == (AppState { selected_ability_index: i, ..o })
                }
            },
            DetailMode::Encounter => match encounter_count(o) {
                None => !moved && n == o,
                Some(len) => {
                    let i = clamped_index(o.selected_encounter_index, len as usize, delta);
                    if len == 0 || i == o.selected_encounter_index {
                        !moved && n == o
                    } else {
                        moved && n == (AppState { selected_encounter_index: i, ..o })
                    }
                },
            },
            _ => !moved && n == o,
        },
    }
}

fn advance_detail(state: &mut AppState, delta: i16) -> (moved: bool)
    ensures
        advance_post(*old(state), *final(state), delta, moved),
{
    let (moves_len, abilities_len) = match state.current_detail() {
        None => return false,
        Some(d) => (d.moves.len(), d.abilities.len()),
    };
    match state.detail_mode {
        DetailMode::Move => {
            if moves_len == 0 {
                return false;
            }
            let i = clamp_index(state.selected_move_index, moves_len, delta);
            if i == state.selected_move_index {
                return false;
            }
            state.selected_move_index = i;
            true
        },
        DetailMode::Ability => {
            if abilities_len == 0 {
                return false;
            }
            let i = clamp_index(state.selected_ability_index, abilities_len, delta);
            if i == state.selected_ability_index {
                return false;
            }
            state.selected_ability_index = i;
            true
        },
        DetailMode::Encounter => {
            let len = match encounter_len(state) {
                None => return false,
                Some(l) => l,
            };
            if len == 0 {
                return false;
            }
            let i = clamp_index(state.selected_encounter_index, len, delta);
            if i == state.selected_encounter_index {
                return false;
            }
            state.selected_encounter_index = i;
            true
        },
        _ => false,
    }
}

/// `index` kept within a list of `len` items.
pub open spec fn bounded_index(index: usize, len: int) -> usize {
    if index as int <= len - 1 { index } else { (len - 1) as usize }
}

/// Putting a tab's cursor on `index` of a list of `len` (`None` when the
/// list is not there); reports whether it moved.
pub open spec fn select_index_post(current: usize, len: Option<int>, index: usize, moved: bool, new_index: usize) -> bool {
    match len {
        None => !moved && new_index == current,
        Some(l) => if l == 0 || bounded_index(index, l) == current {
            !moved && new_index == current
        } else {
            moved && new_index == bounded_index(index, l)
        },
    }
}

fn select_move_index(state: &mut AppState, index: usize) -> (moved: bool)
    ensures
        select_index_post(
            old(state).selected_move_index,
            move_count(*old(state)),
            index,
            moved,
            final(state).selected_move_index,
        ),
        *final(state) == (AppState { selected_move_index: final(state).selected_move_index, ..*old(state) }),
{
    let len = match state.current_detail() {
        None => return false,
        Some(d) => d.moves.len(),
    };
    if len == 0 {
        return false;
    }
    let b = if index <= len - 1 { index } else { len - 1 };
    if b == state.selected_move_index {
        return false;
    }
    state.selected_move_index = b;
    true
}

fn select_ability_index(state: &mut AppState, index: usize) -> (moved: bool)
    ensures
        select_index_post(
            old(state).selected_ability_index,
            ability_count(*old(state)),
            index,
            moved,
            final(state).selected_ability_index,
        ),
        *final(state) == (AppState { selected_ability_index: final(state).selected_ability_index, ..*old(state) }),
{
    let len = match state.current_detail() {
        None => return false,
        Some(d) => d.abilities.len(),
    };
    if len == 0 {
        return false;
    }
    let b = if index <= len - 1 { index } else { len - 1 };
    if b == state.selected_ability_index {
        return false;
    }
    state.selected_ability_index = b;
    true
}

fn select_encounter_index(state: &mut AppState, index: usize) -> (moved: bool)
    ensures
        select_index_post(
            old(state).selected_encounter_index,
            encounter_count(*old(state)),
            index,
            moved,
            final(state).selected_encounter_index,
        ),
        *final(state) == (AppState { selected_encounter_index: final(state).selected_encounter_index, ..*old(state) }),
{
    let len = match encounter_len(state) {
        None => return false,
        Some(l) => l,
    };
    if len == 0 {
        return false;
    }
    let b = if index <= len - 1 { index } else { len - 1 };
    if b == state.selected_encounter_index {
        return false;
    }
    state.selected_encounter_index = b;
    true
}

/// The position of a tab in the tab bar.
pub open spec fn tab_position(m: DetailMode) -> int {
    match m {
        DetailMode::General => 0,
        DetailMode::Move => 1,
        DetailMode::Ability => 2,
        DetailMode::Encounter => 3,
        DetailMode::Matchup => 4,
    }
}

/// The tab at a position of the tab bar.
pub open spec fn tab_at(i: int) -> DetailMode {
    if i == 0 {
        DetailMode::General
    } else if i == 1 {
        DetailMode::Move
    } else if i == 2 {
        DetailMode::Ability
    } else if i == 3 {
        DetailMode::Encounter
    } else {
        DetailMode::Matchup
    }
}

/// The tab `step` places along from `m`, wrapping once around either end.
pub open spec fn tab_after(m: DetailMode, step: i16) -> DetailMode {
    let next = tab_position(m) + step;
    if next < 0 {
        DetailMode::Matchup
    } else if next >= 5 {
        DetailMode::General
    } else {
        tab_at(next)
    }
}

fn cycle_detail_tab(state: &mut AppState, step: i16) -> (r: Outcome<Effect>)
    ensures
        ({
            let next = tab_after(old(state).detail_mode, step);
            if next == old(state).detail_mode {
                *final(state) == *old(state) && !r.changed && r.effects@.len() == 0
            } else {
                tab_effects_post(AppState { detail_mode: next, ..*old(state) }, *final(state), r)
            }
        }),
{
    let current: i32 = match state.detail_mode {
        DetailMode::General => 0,
        DetailMode::Move => 1,
        DetailMode::Ability => 2,
        DetailMode::Encounter => 3,
        DetailMode::Matchup => 4,
    };
    let next = current + step as i32;
    let mode = if next < 0 {
        DetailMode::Matchup
    } else if next >= 5 {
        DetailMode::General
    } else if next == 0 {
        DetailMode::General
    } else if next == 1 {
        DetailMode::Move
    } else if next == 2 {
        DetailMode::Ability
    } else if next == 3 {
        DetailMode::Encounter
    } else {
        DetailMode::Matchup
    };
    if mode == state.detail_mode {
        return Outcome::unchanged();
    }
    state.detail_mode = mode;
    detail_selection_effects(state)
}

/// Whether a type of `types` has no cached matchup.
pub open spec fn any_missing(types: Seq<String>, cache: Cache<crate::pokeapi::state::TypeMatchup>) -> bool {
    exists|i: int| 0 <= i < types.len() && cache.get_spec((#[trigger] types[i])@) is None
}

/// Whether the matchup tab still waits for data.
pub open spec fn matchup_loading(s: AppState) -> bool {
    s.detail_mode == DetailMode::Matchup && match current_detail_spec(s) {
        Some(d) => any_missing(d.types@, s.type_matchup_cache),
        None => false,
    }
}

fn current_matchup_loading(state: &AppState) -> (b: bool)
    ensures
        b == matchup_loading(*state),
{
    if state.detail_mode != DetailMode::Matchup {
        return false;
    }
    match state.current_detail() {
        None => false,
        Some(d) => {
            let mut i: usize = 0;
            while i < d.types.len()
                invariant
                    i <= d.types@.len(),
                    current_detail_spec(*state) == Some(*d),
                    state.detail_mode == DetailMode::Matchup,
                    forall|j: int| 0 <= j < i ==> state.type_matchup_cache.get_spec((#[trigger] d.types@[j])@) is Some,
                decreases d.types.len() - i,
            {
                if !state.type_matchup_cache.contains_key(d.types[i].as_str()) {
                    assert(state.type_matchup_cache.get_spec(d.types@[i as int]@) is None);
                    assert(any_missing(d.types@, state.type_matchup_cache));
                    assert(current_detail_spec(*state) == Some(*d));
                    return true;
                }
                i = i + 1;
            }
            false
        },
    }
}

/// The versions named by a location's encounter details, in order.
pub open spec fn location_versions(l: EncounterLocation) -> Seq<Seq<char>> {
    l.version_details@.map_values(|v: EncounterVersion| v.version@)
}

/// Every version named by the locations, in order, repeats included.
pub open spec fn all_versions(locs: Seq<EncounterLocation>) -> Seq<Seq<char>>
    decreases locs.len(),
{
    if locs.len() == 0 {
        seq![]
    } else {
        all_versions(locs.drop_last()) + location_versions(locs.last())
    }
}

/// The distinct versions of the locations in increasing order.
#[verifier::opaque]
pub open spec fn version_list(locs: Seq<EncounterLocation>) -> Seq<Seq<char>> {
    choose|vs: Seq<Seq<char>>| strictly_sorted(vs) && forall|x: Seq<char>| vs.contains(x) <==> all_versions(locs).contains(x)
}

/// The views of a list of strings.
pub open spec fn views(v: Seq<String>) -> Seq<Seq<char>> {
    v.map_values(|s: String| s@)
}

fn flat_versions(locs: &Vec<EncounterLocation>) -> (r: Vec<String>)
    ensures
        views(r@) == all_versions(locs@),
{
    let mut out: Vec<String> = Vec::new();
    let mut i: usize = 0;
    while i < locs.len()
        invariant
            i <= locs@.len(),
            views(out@) == all_versions(locs@.subrange(0, i as int)),
        decreases locs.len() - i,
    {
        assert(locs@.subrange(0, i + 1).drop_last() =~= locs@.subrange(0, i as int));
        let details = &locs[i].version_details;
        let ghost base = views(out@);
        let mut j: usize = 0;
        while j < details.len()
            invariant
                j <= details@.len(),
                views(out@) == base + details@.subrange(0, j as int).map_values(|v: EncounterVersion| v.version@),
            decreases details.len() - j,
        {
            let ghost prev = out@;
            let v = details[j].version.clone();
            assert(v@ == details@[j as int].version@);
            out.push(v);
            assert(out@ =~= prev.push(v));
            assert(views(out@) =~= views(prev).push(v@));
            assert(details@.subrange(0, j + 1).map_values(|v: EncounterVersion| v.version@)
                =~= details@.subrange(0, j as int).map_values(|v: EncounterVersion| v.version@).push(details@[j as int].version@));
            assert(views(out@) =~= base + details@.subrange(0, j + 1).map_values(|v: EncounterVersion| v.version@));
            j = j + 1;
        }
        assert(details@.subrange(0, details@.len() as int) =~= details@);
        i = i + 1;
    }
    assert(locs@.subrange(0, locs@.len() as int) =~= locs@);
    out
}

/// Inserts `v` into the strictly increasing list `out` unless present.
fn insert_sorted(out: &mut Vec<String>, v: String)
    requires
        strictly_sorted(views(old(out)@)),
    ensures
        strictly_sorted(views(final(out)@)),
        forall|x: Seq<char>| #[trigger] views(final(out)@).contains(x) <==> (views(old(out)@).contains(x) || x == v@),
{
    let ghost vs = views(out@);
    let mut k: usize = 0;
    while k < out.len() && str_less(out[k].as_str(), v.as_str())
        invariant
            k <= out@.len(),
            vs == views(out@),
            *out == *old(out),
            forall|j: int| 0 <= j < k ==> seq_lt(#[trigger] vs[j], v@),
        decreases out.len() - k,
    {
        k = k + 1;
    }
    if k < out.len() && crate::text::str_eq(out[k].as_str(), v.as_str()) {
        assert(vs.contains(v@)) by {
            assert(vs[k as int] == out@[k as int]@);
        }
        return;
    }
    proof {
        if k < out@.len() {
            assert(vs[k as int] == out@[k as int]@);
            lemma_lt_total(vs[k as int], v@);
            // vs[k] is not below v and not v, so it is above.
        }
    }
    out.insert(k, v);
    let ghost ws = views(out@);
    proof {
        assert(ws =~= vs.subrange(0, k as int).push(v@) + vs.subrange(k as int, vs.len() as int));
        assert forall|i: int, j: int| 0 <= i < j < ws.len() implies seq_lt(#[trigger] ws[i], #[trigger] ws[j]) by {
            if j < k {
            } else if j == k {
                assert(ws[i] == vs[i]);
            } else if i == k {
                assert(ws[j] == vs[j - 1]);
                if j - 1 > k {
                    assert(seq_lt(vs[k as int], vs[j - 1]));
                    lemma_lt_transitive(v@, vs[k as int], vs[j - 1]);
                }
            } else if i < k {
                assert(ws[i] == vs[i]);
                assert(ws[j] == vs[j - 1]);
            } else {
                assert(ws[i] == vs[i - 1]);
                assert(ws[j] == vs[j - 1]);
            }
        }
        assert forall|x: Seq<char>| #[trigger] ws.contains(x) <==> (vs.contains(x) || x == v@) by {
            if ws.contains(x) {
                let m = choose|m: int| 0 <= m < ws.len() && ws[m] == x;
                if m < k {
                    assert(vs[m] == x);
                } else if m > k {
                    assert(vs[m - 1] == x);
                }
            }
            if vs.contains(x) {
                let m = choose|m: int| 0 <= m < vs.len() && vs[m] == x;
                if m < k {
                    assert(ws[m] == x);
                } else {
                    assert(ws[m + 1] == x);
                }
            }
            if x == v@ {
                assert(ws[k as int] == x);
            }
        }
    }
}

/// The distinct versions of the locations in increasing order.
fn sorted_versions(locs: &Vec<EncounterLocation>) -> (r: Vec<String>)
    ensures
        views(r@) == version_list(locs@),
{
    let flat = flat_versions(locs);
    let mut out: Vec<String> = Vec::new();
    let mut i: usize = 0;
    assert(strictly_sorted(views(out@)));
    while i < flat.len()
        invariant
            i <= flat@.len(),
            views(flat@) == all_versions(locs@),
            strictly_sorted(views(out@)),
            forall|x: Seq<char>| #[trigger] views(out@).contains(x) <==> views(flat@).subrange(0, i as int).contains(x),
        decreases flat.len() - i,
    {
        let ghost before = views(out@);
        insert_sorted(&mut out, flat[i].clone());
        proof {
            let pre = views(flat@).subrange(0, i as int);
            let cur = views(flat@).subrange(0, i + 1);
            assert(cur =~= pre.push(flat@[i as int]@));
            assert forall|x: Seq<char>| #[trigger] views(out@).contains(x) <==> cur.contains(x) by {
                if pre.contains(x) {
                    let m = choose|m: int| 0 <= m < pre.len() && pre[m] == x;
                    assert(cur[m] == x);
                }
                if cur.contains(x) {
                    let m = choose|m: int| 0 <= m < cur.len() && cur[m] == x;
                    if m < i {
                        assert(pre[m] == x);
                    }
                }
                if x == flat@[i as int]@ {
                    assert(cur[i as int] == x);
                }
            }
        }
        i = i + 1;
    }
    proof {
        assert(views(flat@).subrange(0, flat@.len() as int) =~= views(flat@));
        let vs = views(out@);
        assert(strictly_sorted(vs) && forall|x: Seq<char>| vs.contains(x) <==> all_versions(locs@).contains(x));
        let w = version_list(locs@);
        reveal(version_list);
        assert(strictly_sorted(w) && forall|x: Seq<char>| w.contains(x) <==> all_versions(locs@).contains(x));
        lemma_sorted_unique(vs, w);
    }
    out
}

/// Whether a sequence is `v`.
pub open spec fn is_seq(v: Seq<char>) -> spec_fn(Seq<char>) -> bool {
    |x: Seq<char>| x == v
}

/// The encounter locations cached for the entry shown.
pub open spec fn shown_encounters(s: AppState) -> Option<Vec<EncounterLocation>> {
    match s.detail_name {
        Some(n) => s.encounter_cache.get_spec(n@),
        None => None,
    }
}

/// The position after `cur` moved by `step` over `0..=max`, wrapping once
/// around either end.
pub open spec fn wrapped(cur: int, step: int, max: int) -> int {
    let next = cur + step;
    if next < 0 {
        max
    } else if next > max {
        0
    } else {
        next
    }
}

/// Cycling the encounter version filter through "all" and then each
/// version, in increasing order; the encounter cursor goes back to 0.
pub open spec fn encounter_filter_post(o: AppState, n: AppState, r: Outcome<Effect>, step: i16) -> bool {
    match shown_encounters(o) {
        None => unchanged_post(o, n, r),
        Some(locs) => {
            let vs = version_list(locs@);
            if vs.len() == 0 {
                unchanged_post(o, n, r)
            } else {
                let cur = match o.encounter_version_filter {
                    Some(f) => match first_where(vs, is_seq(f@)) {
                        Some(i) => i + 1,
                        None => 0,
                    },
                    None => 0,
                };
                let next = wrapped(cur, step as int, vs.len() as int);
                &&& if next == 0 {
                    n.encounter_version_filter is None
                } else {
                    n.encounter_version_filter matches Some(f) && f@ == vs[next - 1]
                }
                &&& n == (AppState {
                    encounter_version_filter: n.encounter_version_filter,
                    selected_encounter_index: 0,
                    ..o
                })
                &&& r.changed && r.effects@.len() == 0
            }
        },
    }
}

/// The state is unchanged and so is reported.
pub open spec fn unchanged_post(o: AppState, n: AppState, r: Outcome<Effect>) -> bool {
    n == o && !r.changed && r.effects@.len() == 0
}

fn position_of(vs: &Vec<String>, f: &str) -> (r: Option<usize>)
    ensures
        match first_where(views(vs@), is_seq(f@)) {
            Some(i) => r matches Some(k) && k as int == i,
            None => r is None,
        },
        r matches Some(k) ==> k < vs@.len(),
{
    let ghost p = is_seq(f@);
    let ghost w = views(vs@);
    let mut k: usize = 0;
    while k < vs.len()
        invariant
            k <= vs@.len(),
            w == views(vs@),
            p == is_seq(f@),
            forall|j: int| 0 <= j < k ==> !p(#[trigger] w[j]),
        decreases vs.len() - k,
    {
        if str_eq(vs[k].as_str(), f) {
            proof {
                lemma_first_where_at(w, p, k as int);
            }
            return Some(k);
        }
        k = k + 1;
    }
    proof {
        lemma_first_where_at(w, p, k as int);
    }
    None
}

/// `cur` moved by `step` over `0..=max`, wrapping once around either end.
fn wrap_step(cur: usize, step: i16, max: usize) -> (r: usize)
    requires
        cur <= max,
    ensures
        r as int == wrapped(cur as int, step as int, max as int),
        r <= max,
{
    if step < 0 {
        let m = (-(step as i32)) as usize;
        if cur < m {
            max
        } else {
            cur - m
        }
    } else {
        let m = step as usize;
        if m > max - cur {
            0
        } else {
            cur + m
        }
    }
}

#[verifier::rlimit(40)]
fn cycle_encounter_filter(state: &mut AppState, step: i16) -> (r: Outcome<Effect>)
    ensures
        encounter_filter_post(*old(state), *final(state), r, step),
{
    let versions = match &state.detail_name {
        None => return Outcome::unchanged(),
        Some(n) => match state.encounter_cache.get(n.as_str()) {
            None => return Outcome::unchanged(),
            Some(locs) => sorted_versions(locs),
        },
    };
    if versions.len() == 0 {
        return Outcome::unchanged();
    }
    let cur: usize = match &state.encounter_version_filter {
        None => 0,
        Some(f) => match position_of(&versions, f.as_str()) {
            Some(k) => k + 1,
            None => 0,
        },
    };
    let next = wrap_step(cur, step, versions.len());
    if next == 0 {
        state.encounter_version_filter = None;
    } else {
        state.encounter_version_filter = Some(versions[next - 1].clone());
    }
    state.selected_encounter_index = 0;
    Outcome::changed()
}

fn contains_version(flat: &Vec<String>, f: &str) -> (b: bool)
    ensures
        b == views(flat@).contains(f@),
{
    let mut k: usize = 0;
    while k < flat.len()
        invariant
            k <= flat@.len(),
            forall|j: int| 0 <= j < k ==> views(flat@)[j] != f@,
        decreases flat.len() - k,
    {
        if str_eq(flat[k].as_str(), f) {
            assert(views(flat@)[k as int] == f@);
            return true;
        }
        k = k + 1;
    }
    false
}

/// Whether any location lists version `v`.
pub open spec fn has_version(locs: Seq<EncounterLocation>, v: Seq<char>) -> bool {
    all_versions(locs).contains(v)
}

/// A version filter that the cached encounters of `name` do not list is
/// dropped.
fn normalize_encounter_filter(state: &mut AppState, name: &str)
    ensures
        ({
            let o = *old(state);
            let drop = match (o.encounter_version_filter, o.encounter_cache.get_spec(name@)) {
                (Some(f), Some(locs)) => !has_version(locs@, f@),
                _ => false,
            };
            *final(state) == (AppState {
                encounter_version_filter: if drop { None } else { o.encounter_version_filter },
                ..o
            })
        }),
{
    let keep = match &state.encounter_version_filter {
        None => return,
        Some(f) => match state.encounter_cache.get(name) {
            None => return,
            Some(locs) => {
                let flat = flat_versions(locs);
                contains_version(&flat, f.as_str())
            },
        },
    };
    if !keep {
        state.encounter_version_filter = None;
    }
}

/// `m` is `p` with the filtered list recomputed (see `rebuild_filtered`).
pub open spec fn rebuilt(p: AppState, m: AppState) -> bool {
    let f = filtered(p.pokedex@, query_key(p), p.type_filter, p.type_members);
    &&& m.filtered_indices@ == f
    &&& m == (AppState {
        filtered_indices: m.filtered_indices,
        selected_index: if p.selected_index >= f.len() { 0 } else { p.selected_index },
        ..p
    })
}

/// Recomputing the filtered list, then showing the entry under the cursor.
pub open spec fn refilter_select_post(p: AppState, n: AppState, r: Outcome<Effect>) -> bool {
    &&& r.changed
    &&& exists|m: AppState| #[trigger] rebuilt(p, m) && select_current_post(m, n, effects_view(r.effects@))
}

fn refilter_and_select(state: &mut AppState) -> (r: Outcome<Effect>)
    ensures
        refilter_select_post(*old(state), *final(state), r),
{
    state.rebuild_filtered();
    let ghost m = *state;
    assert(rebuilt(*old(state), m));
    let effects = select_current(state);
    Outcome::changed_with_many(effects)
}

/// The type filter cleared.
pub open spec fn cleared_filter(o: AppState, p: AppState) -> bool {
    &&& forall|k: Seq<char>| !(#[trigger] p.type_members.has(k))
    &&& p == (AppState { type_filter: None, type_members: p.type_members, type_loading: false, ..o })
}

/// The type filter set to `t`, with the cached members `c`.
pub open spec fn cached_filter(o: AppState, p: AppState, t: String, c: NameSet) -> bool {
    &&& p.type_filter matches Some(x) && x@ == t@
    &&& forall|k: Seq<char>| #[trigger] p.type_members.has(k) == c.has(k)
    &&& p == (AppState { type_filter: p.type_filter, type_members: p.type_members, type_loading: false, ..o })
}

/// The type filter set to `t`, its members still to be fetched.
pub open spec fn pending_filter(o: AppState, p: AppState, t: String) -> bool {
    &&& p.type_filter matches Some(x) && x@ == t@
    &&& forall|k: Seq<char>| !(#[trigger] p.type_members.has(k))
    &&& p == (AppState { type_filter: p.type_filter, type_members: p.type_members, type_loading: true, ..o })
}

/// Setting the type filter to `t`: with cached members they apply at once
/// and the shown entry follows the new list; otherwise they are asked for.
pub open spec fn filter_to_post(o: AppState, n: AppState, r: Outcome<Effect>, t: String) -> bool {
    match o.type_cache.get_spec(t@) {
        Some(c) => exists|p: AppState| #[trigger] cached_filter(o, p, t, c) && refilter_select_post(p, n, r),
        None => {
            &&& exists|p: AppState| #[trigger] pending_filter(o, p, t) && rebuilt(p, n)
            &&& r.changed && effects_view(r.effects@) == seq![EffectView::LoadTypeDetail(t@)]
        },
    }
}

/// The type filter moved to position `next` of "all" followed by the types.
pub open spec fn type_choice_post(o: AppState, n: AppState, r: Outcome<Effect>, next: int) -> bool {
    if next == 0 {
        exists|p: AppState| #[trigger] cleared_filter(o, p) && refilter_select_post(p, n, r)
    } else {
        filter_to_post(o, n, r, o.type_list@[next - 1])
    }
}

/// Cycling the type filter through "all" and then each type in list order.
pub open spec fn type_filter_post(o: AppState, n: AppState, r: Outcome<Effect>, step: i16) -> bool {
    if o.type_list@.len() == 0 {
        unchanged_post(o, n, r)
    } else {
        let cur = match o.type_filter {
            Some(f) => match first_where(views(o.type_list@), is_seq(f@)) {
                Some(i) => i + 1,
                None => 0,
            },
            None => 0,
        };
        type_choice_post(o, n, r, wrapped(cur, step as int, o.type_list@.len() as int))
    }
}

fn filter_off(state: &mut AppState) -> (r: Outcome<Effect>)
    ensures
        exists|p: AppState| #[trigger] cleared_filter(*old(state), p) && refilter_select_post(p, *final(state), r),
{
    state.type_filter = None;
    state.type_members.clear();
    state.type_loading = false;
    let ghost p = *state;
    assert(cleared_filter(*old(state), p));
    refilter_and_select(state)
}

fn filter_cached(state: &mut AppState, t: String, c: NameSet, Ghost(c0): Ghost<NameSet>) -> (r: Outcome<Effect>)
    requires
        forall|k: Seq<char>| #[trigger] c.has(k) == c0.has(k),
    ensures
        exists|p: AppState| #[trigger] cached_filter(*old(state), p, t, c0) && refilter_select_post(p, *final(state), r),
{
    state.type_filter = Some(t);
    state.type_members = c;
    state.type_loading = false;
    let ghost p = *state;
    assert(cached_filter(*old(state), p, t, c0));
    refilter_and_select(state)
}

fn filter_pending(state: &mut AppState, t: String) -> (r: Outcome<Effect>)
    ensures
        exists|p: AppState| #[trigger] pending_filter(*old(state), p, t) && rebuilt(p, *final(state)),
        r.changed && effects_view(r.effects@) == seq![EffectView::LoadTypeDetail(t@)],
{
    let name = t.clone();
    state.type_filter = Some(t);
    state.type_members.clear();
    state.type_loading = true;
    let ghost p = *state;
    assert(pending_filter(*old(state), p, t));
    state.rebuild_filtered();
    assert(rebuilt(p, *state));
    let mut effects: Vec<Effect> = Vec::new();
    effects.push(Effect::LoadTypeDetail { name });
    assert(effects_view(effects@) =~= seq![EffectView::LoadTypeDetail(t@)]);
    Outcome::changed_with_many(effects)
}

fn cycle_filter(state: &mut AppState, step: i16) -> (r: Outcome<Effect>)
    ensures
        type_filter_post(*old(state), *final(state), r, step),
{
    if state.type_list.len() == 0 {
        return Outcome::unchanged();
    }
    let cur: usize = match &state.type_filter {
        None => 0,
        Some(f) => match position_of(&state.type_list, f.as_str()) {
            Some(k) => k + 1,
            None => 0,
        },
    };
    let next = wrap_step(cur, step, state.type_list.len());
    proof {
        let o = *old(state);
        let cs = match o.type_filter {
            Some(f) => match first_where(views(o.type_list@), is_seq(f@)) {
                Some(i) => i + 1,
                None => 0,
            },
            None => 0,
        };
        assert(cur as int == cs);
        assert(next as int == wrapped(cs, step as int, o.type_list@.len() as int));
    }
    if next == 0 {
        return filter_off(state);
    }
    let next_type = state.type_list[next - 1].clone();
    assert(next_type == old(state).type_list@[next - 1]);
    match state.type_cache.get(next_type.as_str()) {
        Some(c) => {
            let copy = c.clone_set();
            let ghost c0 = old(state).type_cache.get_spec(next_type@)->0;
            assert(old(state).type_cache.get_spec(next_type@) == Some(c0));
            let ghost t = next_type;
            let r = filter_cached(state, next_type, copy, Ghost(c0));
            assert(exists|p: AppState| #[trigger] cached_filter(*old(state), p, t, c0) && refilter_select_post(p, *state, r));
            assert(t == old(state).type_list@[next - 1]);
            assert(filter_to_post(*old(state), *state, r, t));
            r
        },
        None => {
            let ghost t = next_type;
            let r = filter_pending(state, next_type);
            assert(t == old(state).type_list@[next - 1]);
            assert(old(state).type_cache.get_spec(t@) is None);
            assert(filter_to_post(*old(state), *state, r, t));
            r
        },
    }
}

/// Moving to another region: the dex, search, selection and detail start
/// over and the region's dex is asked for. With no regions, or when the
/// step lands on the current region, nothing happens.
pub open spec fn region_post(o: AppState, n: AppState, r: Outcome<Effect>, step: i16) -> bool {
    let len = o.regions@.len() as int;
    let next0 = o.region_index + step;
    let next = if next0 < 0 { len - 1 } else if next0 >= len { 0 } else { next0 };
    if len == 0 || next == o.region_index {
        unchanged_post(o, n, r)
    } else {
        &&& !n.search.active && n.search.query@.len() == 0
        &&& n.pokedex@.len() == 0 && n.pokedex_all@.len() == 0 && n.filtered_indices@.len() == 0
        &&& n == (AppState {
            region_index: next as usize,
            search: n.search,
            detail_name: None,
            selected_index: 0,
            list_loading: true,
            pokedex: n.pokedex,
            pokedex_all: n.pokedex_all,
            filtered_indices: n.filtered_indices,
            species_index_loading: true,
            evolution_selected_index: 0,
            sprite_frame_index: 0,
            sprite_frame_tick: 0,
            detail_mode: DetailMode::General,
            selected_move_index: 0,
            selected_ability_index: 0,
            selected_encounter_index: 0,
            message: None,
            ..o
        })
        &&& r.changed && effects_view(r.effects@) == seq![EffectView::LoadPokedex(o.regions@[next].name@)]
    }
}

#[verifier::rlimit(80)]
fn cycle_region(state: &mut AppState, step: i16) -> (r: Outcome<Effect>)
    ensures
        region_post(*old(state), *final(state), r, step),
{
    let len = state.regions.len();
    if len == 0 {
        return Outcome::unchanged();
    }
    let cur = state.region_index;
    let next: usize = if step < 0 {
        let m = (-(step as i32)) as usize;
        if cur < m {
            len - 1
        } else if cur - m >= len {
            0
        } else {
            cur - m
        }
    } else {
        let m = step as usize;
        if cur >= len || m >= len - cur {
            0
        } else {
            cur + m
        }
    };
    if next == state.region_index {
        return Outcome::unchanged();
    }
    state.region_index = next;
    state.search.active = false;
    state.search.query = String::new();
    state.detail_name = None;
    state.selected_index = 0;
    state.list_loading = true;
    state.pokedex = Vec::new();
    state.pokedex_all = Vec::new();
    state.filtered_indices = Vec::new();
    state.species_index_loading = true;
    state.evolution_selected_index = 0;
    state.reset_sprite_animation();
    state.reset_detail_selection();
    state.message = None;
    let name = state.regions[next].name.clone();
    let mut effects: Vec<Effect> = Vec::new();
    effects.push(Effect::LoadPokedex { name });
    assert(effects_view(effects@) =~= seq![EffectView::LoadPokedex(old(state).regions@[next as int].name@)]);
    Outcome::changed_with_many(effects)
}

/// One animation tick: the tick counter always advances; a multi-frame
/// sprite of the entry shown moves to its next frame.
pub open spec fn tick_post(o: AppState, n: AppState, r: Outcome<Effect>) -> bool {
    let t = AppState { tick: (if o.tick < u64::MAX { o.tick + 1 } else { 0 }) as u64, ..o };
    let frames = match o.detail_name {
        Some(name) => match o.sprite_cache.get_spec(name@) {
            Some(sp) => sp.frames@.len() as int,
            None => 0,
        },
        None => 0,
    };
    if frames <= 1 {
        n == t && !r.changed && r.effects@.len() == 0
    } else {
        &&& n == (AppState {
            sprite_frame_tick: (if o.sprite_frame_tick < u64::MAX { o.sprite_frame_tick + 1 } else { 0 }) as u64,
            sprite_frame_index: ((o.sprite_frame_index + 1) % frames) as usize,
            ..t
        })
        &&& r.changed && r.effects@.len() == 0
    }
}

fn tick_animation(state: &mut AppState) -> (r: Outcome<Effect>)
    ensures
        tick_post(*old(state), *final(state), r),
{
    state.tick = state.tick.wrapping_add(1);
    let frames = match &state.detail_name {
        None => return Outcome::unchanged(),
        Some(name) => match state.sprite_cache.get(name.as_str()) {
            None => return Outcome::unchanged(),
            Some(sp) => sp.frames.len(),
        },
    };
    if frames <= 1 {
        return Outcome::unchanged();
    }
    state.sprite_frame_tick = state.sprite_frame_tick.wrapping_add(1);
    let i = state.sprite_frame_index % frames + 1;
    assert((state.sprite_frame_index % frames + 1) % (frames as int) == (state.sprite_frame_index + 1) % (frames as int)) by (nonlinear_arith)
        requires
            frames > 1,
    {
        vstd::arithmetic::div_mod::lemma_add_mod_noop(state.sprite_frame_index as int, 1, frames as int);
        vstd::arithmetic::div_mod::lemma_mod_twice(state.sprite_frame_index as int, frames as int);
    }
    state.sprite_frame_index = i % frames;
    Outcome::changed()
}

/// The message shown is `text`; nothing else changes.
pub open spec fn message_post(o: AppState, n: AppState, text: Seq<char>) -> bool {
    &&& n.message matches Some(m) && m@ == text
    &&& n == (AppState { message: n.message, ..o })
}

fn set_message(state: &mut AppState, text: String)
    ensures
        message_post(*old(state), *final(state), text@),
{
    state.message = Some(text);
}

fn join2(a: &str, b: &str) -> (r: String)
    ensures
        r@ == a@ + b@,
{
    let mut r = owned(a);
    push_str(&mut r, b);
    r
}

fn join4(a: &str, b: &str, c: &str, d: &str) -> (r: String)
    ensures
        r@ == a@ + b@ + c@ + d@,
{
    let mut r = owned(a);
    push_str(&mut r, b);
    push_str(&mut r, c);
    push_str(&mut r, d);
    r
}

/// Whether a dex entry stays in the regional list: it does unless its
/// species is known to evolve from another species of the same region.
pub open spec fn is_base_form(e: crate::pokeapi::state::PokedexEntry, species: Cache<PokemonSpecies>, region: Seq<crate::pokeapi::state::PokedexEntry>) -> bool {
    match species.get_spec(e.name@) {
        Some(sp) => match sp.evolves_from {
            Some(anc) => !(exists|i: int| 0 <= i < region.len() && (#[trigger] region[i]).name@ == anc@),
            None => true,
        },
        None => true,
    }
}

/// The entries of `all` that are base forms, in order.
pub open spec fn base_forms(all: Seq<crate::pokeapi::state::PokedexEntry>, species: Cache<PokemonSpecies>, region: Seq<crate::pokeapi::state::PokedexEntry>) -> Seq<crate::pokeapi::state::PokedexEntry>
    decreases all.len(),
{
    if all.len() == 0 {
        seq![]
    } else {
        let rest = base_forms(all.drop_last(), species, region);
        if is_base_form(all.last(), species, region) {
            rest.push(all.last())
        } else {
            rest
        }
    }
}

fn copy_entry(e: &crate::pokeapi::state::PokedexEntry) -> (r: crate::pokeapi::state::PokedexEntry)
    ensures
        r == *e,
{
    crate::pokeapi::state::PokedexEntry { entry_number: e.entry_number, name: e.name.clone(), url: e.url.clone() }
}

fn in_region(all: &Vec<crate::pokeapi::state::PokedexEntry>, name: &str) -> (b: bool)
    ensures
        b == exists|i: int| 0 <= i < all@.len() && (#[trigger] all@[i]).name@ == name@,
{
    let mut i: usize = 0;
    while i < all.len()
        invariant
            i <= all@.len(),
            forall|j: int| 0 <= j < i ==> (#[trigger] all@[j]).name@ != name@,
        decreases all.len() - i,
    {
        if str_eq(all[i].name.as_str(), name) {
            return true;
        }
        i = i + 1;
    }
    false
}

/// The regional list once species are known: the base forms of the dex.
fn keep_base_forms(state: &mut AppState)
    ensures
        final(state).pokedex@ == base_forms(old(state).pokedex_all@, old(state).species, old(state).pokedex_all@),
        *final(state) == (AppState { pokedex: final(state).pokedex, ..*old(state) }),
{
    let mut kept: Vec<crate::pokeapi::state::PokedexEntry> = Vec::new();
    let mut i: usize = 0;
    while i < state.pokedex_all.len()
        invariant
            i <= state.pokedex_all@.len(),
            *state == *old(state),
            kept@ == base_forms(state.pokedex_all@.subrange(0, i as int), state.species, state.pokedex_all@),
        decreases state.pokedex_all.len() - i,
    {
        assert(state.pokedex_all@.subrange(0, i + 1).drop_last() =~= state.pokedex_all@.subrange(0, i as int));
        let e = &state.pokedex_all[i];
        let keep = match state.species.get(e.name.as_str()) {
            None => true,
            Some(sp) => match &sp.evolves_from {
                None => true,
                Some(anc) => !in_region(&state.pokedex_all, anc.as_str()),
            },
        };
        if keep {
            kept.push(copy_entry(e));
        }
        i = i + 1;
    }
    assert(state.pokedex_all@.subrange(0, state.pokedex_all@.len() as int) =~= state.pokedex_all@);
    state.pokedex = kept;
}

/// The species cache after storing `list` in order.
pub open spec fn species_after(c: Cache<PokemonSpecies>, list: Seq<PokemonSpecies>, k: Seq<char>) -> Option<PokemonSpecies>
    decreases list.len(),
{
    if list.len() == 0 {
        c.get_spec(k)
    } else if list.last().name@ == k {
        Some(list.last())
    } else {
        species_after(c, list.drop_last(), k)
    }
}

/// Loaded species join the cache; the regional list keeps the base forms,
/// is filtered again with the cursor at the top, and the entry under it is
/// shown.
pub open spec fn species_loaded_post(o: AppState, n: AppState, r: Outcome<Effect>, list: Seq<PokemonSpecies>) -> bool {
    exists|m: AppState| #[trigger] species_stage(o, m, list) && refilter_select_post(m, n, r)
}

/// The state once the species are cached and the base forms kept, with the
/// cursor at the top.
pub open spec fn species_stage(o: AppState, m: AppState, list: Seq<PokemonSpecies>) -> bool {
    &&& forall|k: Seq<char>| #[trigger] m.species.get_spec(k) == species_after(o.species, list, k)
    &&& m.pokedex@ == base_forms(o.pokedex_all@, m.species, o.pokedex_all@)
    &&& m == (AppState {
        species_index_loading: false,
        species: m.species,
        pokedex: m.pokedex,
        selected_index: 0,
        ..o
    })
}

fn copy_opt(o: &Option<String>) -> (r: Option<String>)
    ensures
        r == *o,
{
    match o {
        Some(s) => Some(s.clone()),
        None => None,
    }
}

fn copy_species(sp: &PokemonSpecies) -> (r: PokemonSpecies)
    ensures
        r == *sp,
{
    PokemonSpecies {
        name: sp.name.clone(),
        flavor_text: copy_opt(&sp.flavor_text),
        genus: copy_opt(&sp.genus),
        evolution_chain_url: copy_opt(&sp.evolution_chain_url),
        evolves_from: copy_opt(&sp.evolves_from),
    }
}

fn species_index_loaded(state: &mut AppState, list: Vec<PokemonSpecies>) -> (r: Outcome<Effect>)
    ensures
        species_loaded_post(*old(state), *final(state), r, list@),
{
    state.species_index_loading = false;
    let ghost l = list@;
    let mut i: usize = 0;
    while i < list.len()
        invariant
            i <= l.len(),
            l == list@,
            forall|k: Seq<char>| #[trigger] state.species.get_spec(k) == species_after(old(state).species, l.subrange(0, i as int), k),
            *state == (AppState { species_index_loading: false, species: state.species, ..*old(state) }),
        decreases list.len() - i,
    {
        let sp = copy_species(&list[i]);
        let key = sp.name.clone();
        state.species.insert(key, sp);
        proof {
            assert(l.subrange(0, i + 1).drop_last() =~= l.subrange(0, i as int));
            assert(l.subrange(0, i + 1).last() == l[i as int]);
        }
        i = i + 1;
    }
    proof {
        assert(l.subrange(0, l.len() as int) =~= l);
    }
    keep_base_forms(state);
    state.selected_index = 0;
    let ghost m = *state;
    assert(species_stage(*old(state), m, l));
    refilter_and_select(state)
}

/// Moving the cursor to `index` (see `set_selected_index`), then, when it
/// moved, showing the entry under it.
pub open spec fn cursor_post(o: AppState, n: AppState, r: Outcome<Effect>, index: usize) -> bool {
    let len = o.filtered_indices@.len();
    let bounded = if len == 0 { 0 } else if index <= len - 1 { index as int } else { len - 1 };
    if len == 0 || bounded == o.selected_index {
        !r.changed && r.effects@.len() == 0 && n == (AppState { selected_index: if len == 0 { 0 } else { o.selected_index }, ..o })
    } else {
        r.changed && select_current_post(AppState { selected_index: bounded as usize, ..o }, n, effects_view(r.effects@))
    }
}

fn move_cursor(state: &mut AppState, index: usize) -> (r: Outcome<Effect>)
    ensures
        cursor_post(*old(state), *final(state), r, index),
{
    if !state.set_selected_index(index) {
        return Outcome::unchanged();
    }
    let effects = select_current(state);
    Outcome::changed_with_many(effects)
}

/// The position `delta` rows from the cursor, not below 0; the cursor's
/// position is read as a 16-bit signed number.
pub open spec fn offset_index(current: usize, delta: int) -> usize {
    let i = (current as i16) as int + delta;
    if i < 0 { 0 } else { i as usize }
}

fn offset(current: usize, delta: i64) -> (r: usize)
    requires
        -4_294_967_296 <= delta <= 4_294_967_296,
    ensures
        r == offset_index(current, delta as int),
{
    #[verifier::truncate]
    let c = current as i16;
    let i = c as i64 + delta;
    if i < 0 {
        0
    } else {
        i as usize
    }
}

/// A loaded evolution chain is cached; the evolution cursor finds the entry
/// shown in it.
pub open spec fn evolution_loaded_post(o: AppState, n: AppState, id: String, chain: EvolutionChain) -> bool {
    &&& forall|k: Seq<char>| #[trigger] n.evolution.get_spec(k) == if k == id@ { Some(chain) } else { o.evolution.get_spec(k) }
    &&& n == (AppState {
        evolution: n.evolution,
        evolution_loading: false,
        evolution_selected_index: match o.detail_name {
            Some(name) => match first_where(chain.stages@, named(name@)) {
                Some(i) => i as usize,
                None => o.evolution_selected_index,
            },
            None => o.evolution_selected_index,
        },
        ..o
    })
}

fn store_chain(state: &mut AppState, id: String, chain: EvolutionChain)
    ensures
        forall|k: Seq<char>| #[trigger] final(state).evolution.get_spec(k) == if k == id@ { Some(chain) } else { old(state).evolution.get_spec(k) },
        *final(state) == (AppState { evolution: final(state).evolution, evolution_loading: false, ..*old(state) }),
{
    state.evolution.insert(id, chain);
    state.evolution_loading = false;
}

fn evolution_loaded(state: &mut AppState, id: String, chain: EvolutionChain)
    ensures
        evolution_loaded_post(*old(state), *final(state), id, chain),
{
    let pos = match &state.detail_name {
        Some(name) => stage_position(&chain.stages, name.as_str()),
        None => None,
    };
    if let Some(i) = pos {
        state.evolution_selected_index = i;
    }
    store_chain(state, id, chain);
}

/// Picking stage `index` of the current evolution chain: its entry is
/// shown. Nothing happens without such a stage, or when it is the stage
/// already picked and shown.
pub open spec fn evolution_select_post(o: AppState, n: AppState, r: Outcome<Effect>, index: usize) -> bool {
    match current_chain(o) {
        None => unchanged_post(o, n, r),
        Some(c) => if index >= c.stages@.len() {
            unchanged_post(o, n, r)
        } else {
            let stage = c.stages@[index as int]@;
            if index == o.evolution_selected_index && (o.detail_name matches Some(d) && d@ == stage) {
                unchanged_post(o, n, r)
            } else {
                r.changed && select_detail_post(AppState { evolution_selected_index: index, ..o }, n, stage, effects_view(r.effects@))
            }
        },
    }
}

fn evolution_select(state: &mut AppState, index: usize) -> (r: Outcome<Effect>)
    ensures
        evolution_select_post(*old(state), *final(state), r, index),
{
    let stage = match current_evolution_chain(state) {
        None => return Outcome::unchanged(),
        Some(c) => {
            if index >= c.stages.len() {
                return Outcome::unchanged();
            }
            c.stages[index].clone()
        },
    };
    let same = match &state.detail_name {
        Some(d) => str_eq(d.as_str(), stage.as_str()),
        None => false,
    };
    if index == state.evolution_selected_index && same {
        return Outcome::unchanged();
    }
    state.evolution_selected_index = index;
    let effects = select_detail(state, stage.as_str());
    Outcome::changed_with_many(effects)
}

/// Toggling the entry under the cursor in or out of the favorites.
pub open spec fn favorite_post(o: AppState, n: AppState, r: Outcome<Effect>) -> bool {
    match selected_entry_spec(o) {
        None => unchanged_post(o, n, r),
        Some(e) => {
            &&& forall|k: Seq<char>| #[trigger] n.favorites.has(k) == if k == e.name@ {
                !o.favorites.has(k)
            } else {
                o.favorites.has(k)
            }
            &&& n == (AppState { favorites: n.favorites, ..o })
            &&& r.changed && r.effects@.len() == 0
        },
    }
}

fn toggle_favorite(state: &mut AppState) -> (r: Outcome<Effect>)
    ensures
        favorite_post(*old(state), *final(state), r),
{
    let name = match state.selected_name() {
        None => return Outcome::unchanged(),
        Some(n) => n,
    };
    if state.favorites.contains(name.as_str()) {
        state.favorites.remove(name.as_str());
    } else {
        state.favorites.insert(name);
    }
    Outcome::changed()
}

/// Toggling the entry under the cursor in or out of the team of at most
/// six: leaving removes its first place; joining a full team only shows a
/// message.
pub open spec fn team_post(o: AppState, n: AppState, r: Outcome<Effect>) -> bool {
    match selected_entry_spec(o) {
        None => unchanged_post(o, n, r),
        Some(e) => {
            &&& r.changed && r.effects@.len() == 0
            &&& match first_where(o.team@, named(e.name@)) {
                Some(i) => n == (AppState { team: n.team, ..o }) && n.team@ == o.team@.remove(i),
                None => if o.team@.len() >= 6 {
                    message_post(o, n, "Team is full (6)."@)
                } else {
                    &&& n == (AppState { team: n.team, ..o })
                    &&& n.team@.len() == o.team@.len() + 1
                    &&& n.team@.subrange(0, o.team@.len() as int) == o.team@
                    &&& n.team@.last()@ == e.name@
                },
            }
        },
    }
}

fn toggle_team(state: &mut AppState) -> (r: Outcome<Effect>)
    ensures
        team_post(*old(state), *final(state), r),
{
    let name = match state.selected_name() {
        None => return Outcome::unchanged(),
        Some(n) => n,
    };
    match stage_position(&state.team, name.as_str()) {
        Some(i) => {
            state.team.remove(i);
            return Outcome::changed();
        },
        None => {},
    }
    if state.team.len() >= 6 {
        set_message(state, owned("Team is full (6)."));
        return Outcome::changed();
    }
    state.team.push(name);
    assert(state.team@.subrange(0, old(state).team@.len() as int) =~= old(state).team@);
    Outcome::changed()
}

/// Playing the cry of the detail shown: its latest cry, else its legacy
/// one; without either a message says so.
pub open spec fn cry_post(o: AppState, n: AppState, r: Outcome<Effect>) -> bool {
    match current_detail_spec(o) {
        None => unchanged_post(o, n, r),
        Some(d) => {
            let url = match d.cries_latest {
                Some(u) => Some(u),
                None => d.cries_legacy,
            };
            match url {
                None => message_post(o, n, "No cry available."@) && r.changed && r.effects@.len() == 0,
                Some(u) => n == o && r.changed && effects_view(r.effects@) == seq![EffectView::PlayCry(d.name@, u@)],
            }
        },
    }
}

fn play_cry(state: &mut AppState) -> (r: Outcome<Effect>)
    ensures
        cry_post(*old(state), *final(state), r),
{
    let (name, url) = match state.current_detail() {
        None => return Outcome::unchanged(),
        Some(d) => {
            let url = match &d.cries_latest {
                Some(u) => Some(u.clone()),
                None => copy_opt(&d.cries_legacy),
            };
            (d.name.clone(), url)
        },
    };
    match url {
        None => {
            set_message(state, owned("No cry available."));
            Outcome::changed()
        },
        Some(u) => {
            let mut effects: Vec<Effect> = Vec::new();
            effects.push(Effect::PlayCry { name, url: u });
            let ghost d = current_detail_spec(*old(state))->0;
            assert(effects_view(effects@) =~= seq![EffectView::PlayCry(d.name@, u@)]);
            Outcome::changed_with_many(effects)
        },
    }
}

/// Regions loaded: Kanto is picked when listed, else a cursor past the
/// end goes back to the first.
/// Whether a region is Kanto.
pub open spec fn is_kanto() -> spec_fn(crate::pokeapi::state::RegionInfo) -> bool {
    |r: crate::pokeapi::state::RegionInfo| r.name@ == "kanto"@
}

pub open spec fn regions_loaded_post(o: AppState, n: AppState, regions: Seq<crate::pokeapi::state::RegionInfo>) -> bool {
    &&& n.regions@ == regions
    &&& n == (AppState {
        region_loading: false,
        regions: n.regions,
        region_index: match first_where(regions, is_kanto()) {
            Some(i) => i as usize,
            None => if o.region_index >= regions.len() { 0 } else { o.region_index },
        },
        ..o
    })
}

fn regions_loaded(state: &mut AppState, regions: Vec<crate::pokeapi::state::RegionInfo>)
    ensures
        regions_loaded_post(*old(state), *final(state), regions@),
{
    let ghost p = is_kanto();
    let mut i: usize = 0;
    while i < regions.len()
        invariant
            i <= regions@.len(),
            p == is_kanto(),
            *state == *old(state),
            forall|j: int| 0 <= j < i ==> !p(#[trigger] regions@[j]),
        decreases regions.len() - i,
    {
        if str_eq(regions[i].name.as_str(), "kanto") {
            proof {
                lemma_first_where_at(regions@, p, i as int);
            }
            return finish_regions(state, regions, Some(i));
        }
        i = i + 1;
    }
    proof {
        lemma_first_where_at(regions@, p, i as int);
    }
    finish_regions(state, regions, None)
}

fn finish_regions(state: &mut AppState, regions: Vec<crate::pokeapi::state::RegionInfo>, found: Option<usize>)
    requires
        match first_where(regions@, is_kanto()) {
            Some(i) => found matches Some(k) && k as int == i,
            None => found is None,
        },
    ensures
        regions_loaded_post(*old(state), *final(state), regions@),
{
    state.region_loading = false;
    let len = regions.len();
    state.regions = regions;
    match found {
        Some(k) => {
            state.region_index = k;
        },
        None => {
            if state.region_index >= len {
                state.region_index = 0;
            }
        },
    }
}

/// Only `n`'s loading flag for the dex and species index changed.
pub open spec fn changed_only(o: AppState, n: AppState, r: Outcome<Effect>, m: AppState) -> bool {
    n == m && r.changed && r.effects@.len() == 0
}

/// What the reducer does with each action.
pub open spec fn reducer_post(o: AppState, n: AppState, r: Outcome<Effect>, action: Action) -> bool {
    match action {
        Action::Init => {
            &&& n == (AppState {
                list_loading: true,
                type_loading: true,
                region_loading: true,
                species_index_loading: true,
                message: None,
                ..o
            })
            &&& r.changed
            &&& effects_view(r.effects@) == seq![
                EffectView::LoadRegions,
                EffectView::LoadPokedex("kanto"@),
                EffectView::LoadTypes,
            ]
        },
        Action::PokedexDidLoad(entries) => {
            &&& n.pokedex_all == entries
            &&& n.pokedex@.len() == 0 && n.filtered_indices@.len() == 0
            &&& n == (AppState {
                pokedex_all: n.pokedex_all,
                pokedex: n.pokedex,
                filtered_indices: n.filtered_indices,
                selected_index: 0,
                detail_name: None,
                list_loading: false,
                species_index_loading: true,
                sprite_frame_index: 0,
                sprite_frame_tick: 0,
                detail_mode: DetailMode::General,
                selected_move_index: 0,
                selected_ability_index: 0,
                selected_encounter_index: 0,
                ..o
            })
            &&& r.changed
            &&& effects_view(r.effects@) == seq![
                EffectView::LoadSpeciesIndex(entries@.map_values(|e: crate::pokeapi::state::PokedexEntry| e.name@)),
            ]
        },
        Action::PokedexDidError(e) => r.changed && r.effects@.len() == 0 && message_post(
            AppState { list_loading: false, species_index_loading: false, ..o },
            n,
            "Pokedex error: "@ + e@,
        ),
        Action::SpeciesIndexDidLoad(list) => species_loaded_post(o, n, r, list@),
        Action::SpeciesIndexDidError(e) => exists|m: AppState, p: AppState| #[trigger] message_post(
            AppState { species_index_loading: false, ..o },
            m,
            "Species index error: "@ + e@,
        ) && #[trigger] restored_stage(m, p) && refilter_select_post(p, n, r),
        Action::RegionsDidLoad(regions) => regions_loaded_post(o, n, regions@) && r.changed && r.effects@.len() == 0,
        Action::RegionsDidError(e) => r.changed && r.effects@.len() == 0 && message_post(
            AppState { region_loading: false, ..o },
            n,
            "Region error: "@ + e@,
        ),
        Action::RegionNext => region_post(o, n, r, 1i16),
        Action::RegionPrev => region_post(o, n, r, -1i16),
        Action::FocusNext => if o.search.active {
            unchanged_post(o, n, r)
        } else {
            changed_only(o, n, r, AppState { focus: focus_after(o.focus), ..o })
        },
        Action::FocusPrev => if o.search.active {
            unchanged_post(o, n, r)
        } else {
            changed_only(o, n, r, AppState { focus: focus_before(o.focus), ..o })
        },
        Action::FocusSet(area) => if o.search.active || o.focus == area {
            unchanged_post(o, n, r)
        } else {
            changed_only(o, n, r, AppState { focus: area, ..o })
        },
        Action::TypesDidLoad(types) => changed_only(o, n, r, AppState { type_loading: false, type_list: types, ..o }),
        Action::TypesDidError(e) => r.changed && r.effects@.len() == 0 && message_post(
            AppState { type_loading: false, ..o },
            n,
            "Type error: "@ + e@,
        ),
        Action::TypeFilterNext => type_filter_post(o, n, r, 1i16),
        Action::TypeFilterPrev => type_filter_post(o, n, r, -1i16),
        Action::TypeFilterClear => if o.type_filter is None {
            unchanged_post(o, n, r)
        } else {
            exists|p: AppState| #[trigger] cleared_filter(o, p) && refilter_select_post(AppState { type_loading: o.type_loading, ..p }, n, r)
        },
        Action::TypeFilterDidLoad { name, pokemon } => {
            let current = o.type_filter matches Some(f) && f@ == name@;
            exists|m: AppState| #[trigger] type_members_stage(o, m, name@, pokemon@) && if current {
                refilter_select_post(AppState { type_loading: false, ..m }, n, r)
            } else {
                changed_only(o, n, r, m)
            }
        },
        Action::TypeFilterDidError { name, error } => r.changed && r.effects@.len() == 0 && message_post(
            AppState {
                type_loading: if o.type_filter matches Some(f) && f@ == name@ { false } else { o.type_loading },
                ..o
            },
            n,
            "Type "@ + name@ + " error: "@ + error@,
        ),
        Action::SelectionMove(delta) => cursor_post(o, n, r, offset_index(o.selected_index, delta as int)),
        Action::SelectionPage(delta) => cursor_post(
            o,
            n,
            r,
            offset_index(o.selected_index, delta * ((page_size(o) as i16) as int)),
        ),
        Action::SelectionJumpTop => cursor_post(o, n, r, 0),
        Action::SelectionJumpBottom => cursor_post(
            o,
            n,
            r,
            (if o.filtered_indices@.len() > 0 { o.filtered_indices@.len() - 1 } else { 0 }) as usize,
        ),
        Action::DexSelect(index) => cursor_post(o, n, r, index),
        Action::SearchStart => exists|p: AppState| #[trigger] search_stage(o, p, true, seq![]) && refilter_select_post(p, n, r),
        Action::SearchCancel => if !o.search.active && o.search.query@.len() == 0 {
            unchanged_post(o, n, r)
        } else {
            exists|p: AppState| #[trigger] search_stage(o, p, false, seq![]) && refilter_select_post(p, n, r)
        },
        Action::SearchSubmit => exists|p: AppState| #[trigger] search_stage(o, p, false, o.search.query@) && refilter_select_post(p, n, r),
        Action::SearchInput(c) => exists|p: AppState| #[trigger] search_stage(o, p, o.search.active, o.search.query@.push(c)) && refilter_select_post(p, n, r),
        Action::SearchBackspace => exists|p: AppState| #[trigger] search_stage(
            o,
            p,
            o.search.active,
            backspaced(o.search.query@),
        ) && refilter_select_post(p, n, r),
        Action::PokemonDidLoad(detail) => {
            &&& r.changed
            &&& exists|m: AppState| #[trigger] detail_stage(o, m, detail) && follow_up_post(m, n, detail.name@, effects_view(r.effects@))
        },
        Action::PokemonDidError { name, error } => r.changed && r.effects@.len() == 0 && message_post(
            AppState { detail_loading: false, ..o },
            n,
            name@ + " load error: "@ + error@,
        ),
        Action::PokemonSpeciesDidLoad(sp) => {
            &&& r.changed
            &&& exists|m: AppState| #[trigger] species_cached(o, m, sp) && evolution_effects(m, sp.name@) == effects_view(r.effects@)
                && n == (AppState { evolution_loading: if r.effects@.len() > 0 { true } else { m.evolution_loading }, ..m })
        },
        Action::PokemonSpeciesDidError { name, error } => r.changed && r.effects@.len() == 0 && message_post(
            o,
            n,
            name@ + " species error: "@ + error@,
        ),
        Action::EvolutionDidLoad { id, chain } => evolution_loaded_post(o, n, id, chain) && r.changed && r.effects@.len() == 0,
        Action::EvolutionDidError { id, error } => r.changed && r.effects@.len() == 0 && message_post(
            AppState { evolution_loading: false, ..o },
            n,
            "Evolution error: "@ + error@,
        ),
        Action::EvolutionSelect(index) => evolution_select_post(o, n, r, index),
        Action::SpriteDidLoad { name, sprite } => {
            &&& forall|k: Seq<char>| #[trigger] n.sprite_cache.get_spec(k) == if k == name@ { Some(sprite) } else { o.sprite_cache.get_spec(k) }
            &&& changed_only(o, n, r, AppState {
                sprite_cache: n.sprite_cache,
                sprite_loading: false,
                sprite_frame_index: 0,
                sprite_frame_tick: 0,
                ..o
            })
        },
        Action::SpriteDidError { name, error } => r.changed && r.effects@.len() == 0 && message_post(
            AppState { sprite_loading: false, ..o },
            n,
            "Sprite error for "@ + name@ + ": "@ + error@,
        ),
        Action::MoveDetailDidLoad(d) => {
            &&& forall|k: Seq<char>| #[trigger] n.move_cache.get_spec(k) == if k == d.name@ { Some(d) } else { o.move_cache.get_spec(k) }
            &&& changed_only(o, n, r, AppState { move_cache: n.move_cache, ..o })
        },
        Action::MoveDetailDidError { name, error } => r.changed && r.effects@.len() == 0 && message_post(
            o,
            n,
            "Move "@ + name@ + " error: "@ + error@,
        ),
        Action::AbilityDetailDidLoad(d) => {
            &&& forall|k: Seq<char>| #[trigger] n.ability_cache.get_spec(k) == if k == d.name@ { Some(d) } else { o.ability_cache.get_spec(k) }
            &&& changed_only(o, n, r, AppState { ability_cache: n.ability_cache, ..o })
        },
        Action::AbilityDetailDidError { name, error } => r.changed && r.effects@.len() == 0 && message_post(
            o,
            n,
            "Ability "@ + name@ + " error: "@ + error@,
        ),
        Action::EncounterDidLoad { name, encounters } => {
            &&& r.changed && r.effects@.len() == 0
            &&& exists|m: AppState| #[trigger] encounters_cached(o, m, name, encounters) && if o.detail_name matches Some(d) && d@ == name@ {
                let drop = match m.encounter_version_filter {
                    Some(f) => !has_version(encounters@, f@),
                    None => false,
                };
                n == (AppState {
                    encounter_version_filter: if drop { None } else { m.encounter_version_filter },
                    selected_encounter_index: 0,
                    ..m
                })
            } else {
                n == m
            }
        },
        Action::EncounterDidError { name, error } => r.changed && r.effects@.len() == 0 && message_post(
            AppState { encounter_loading: false, ..o },
            n,
            "Encounters "@ + name@ + " error: "@ + error@,
        ),
        Action::TypeMatchupDidLoad { name, matchup } => {
            &&& forall|k: Seq<char>| #[trigger] n.type_matchup_cache.get_spec(k) == if k == name@ { Some(matchup) } else { o.type_matchup_cache.get_spec(k) }
            &&& changed_only(o, n, r, AppState {
                type_matchup_cache: n.type_matchup_cache,
                type_matchup_loading: matchup_loading(AppState { type_matchup_cache: n.type_matchup_cache, ..o }),
                ..o
            })
        },
        Action::TypeMatchupDidError { name, error } => r.changed && r.effects@.len() == 0 && message_post(
            AppState { type_matchup_loading: matchup_loading(o), ..o },
            n,
            "Type matchup "@ + name@ + " error: "@ + error@,
        ),
        Action::DetailModeToggle => tab_cycle_post(o, n, r, 1i16),
        Action::DetailTabNext => tab_cycle_post(o, n, r, 1i16),
        Action::DetailTabPrev => tab_cycle_post(o, n, r, -1i16),
        Action::DetailNext => tab_cursor_post(o, n, r, 1i16),
        Action::DetailPrev => tab_cursor_post(o, n, r, -1i16),
        Action::MoveSelect(index) => {
            exists|m: AppState| #[trigger] index_stage(o, m, move_count(o), index, o.selected_move_index, m.selected_move_index)
                && m == (AppState { selected_move_index: m.selected_move_index, ..o })
                && stage_effects_post(o, m, n, r)
        },
        Action::AbilitySelect(index) => {
            exists|m: AppState| #[trigger] index_stage(o, m, ability_count(o), index, o.selected_ability_index, m.selected_ability_index)
                && m == (AppState { selected_ability_index: m.selected_ability_index, ..o })
                && stage_effects_post(o, m, n, r)
        },
        Action::EncounterSelect(index) => exists|m: AppState| #[trigger] index_stage(
            o,
            m,
            encounter_count(o),
            index,
            o.selected_encounter_index,
            m.selected_encounter_index,
        ) && m == (AppState { selected_encounter_index: m.selected_encounter_index, ..o }) && stage_effects_post(o, m, n, r),
        Action::EncounterFilterNext => encounter_filter_post(o, n, r, 1i16),
        Action::EncounterFilterPrev => encounter_filter_post(o, n, r, -1i16),
        Action::ToggleFavorite => favorite_post(o, n, r),
        Action::ToggleTeam => team_post(o, n, r),
        Action::PlayCry => cry_post(o, n, r),
        Action::CryDidError(e) => r.changed && r.effects@.len() == 0 && message_post(o, n, "Cry error: "@ + e@),
        Action::UiTerminalResize(w, h) => if o.terminal_size == (w, h) {
            unchanged_post(o, n, r)
        } else {
            changed_only(o, n, r, AppState { terminal_size: (w, h), ..o })
        },
        Action::Tick => tick_post(o, n, r),
        Action::Quit => unchanged_post(o, n, r),
    }
}

/// The number of moves of the detail shown.
pub open spec fn move_count(s: AppState) -> Option<int> {
    match current_detail_spec(s) {
        Some(d) => Some(d.moves@.len() as int),
        None => None,
    }
}

/// The number of abilities of the detail shown.
pub open spec fn ability_count(s: AppState) -> Option<int> {
    match current_detail_spec(s) {
        Some(d) => Some(d.abilities@.len() as int),
        None => None,
    }
}

/// The regional list reset to the whole dex, with the cursor at the top.
pub open spec fn restored_stage(m: AppState, p: AppState) -> bool {
    &&& p.pokedex@ == m.pokedex_all@
    &&& p == (AppState { pokedex: p.pokedex, selected_index: 0, ..m })
}

/// A query with its last character removed, when it has one.
pub open spec fn backspaced(q: Seq<char>) -> Seq<char> {
    if q.len() > 0 { q.drop_last() } else { q }
}

/// The search set to `active` with query `query`.
pub open spec fn search_stage(o: AppState, p: AppState, active: bool, query: Seq<char>) -> bool {
    &&& p.search.active == active && p.search.query@ == query
    &&& p == (AppState { search: p.search, ..o })
}

/// Members of type `name` cached (see `update_type_members`).
pub open spec fn type_members_stage(o: AppState, m: AppState, name: Seq<char>, pokemon: Seq<String>) -> bool {
    &&& forall|k: Seq<char>| #[trigger] m.type_cache.get_spec(k) == if k == name {
        m.type_cache.get_spec(name)
    } else {
        o.type_cache.get_spec(k)
    }
    &&& m.type_cache.get_spec(name) matches Some(set) && forall|x: Seq<char>| #[trigger] set.has(x) == crate::pokeapi::store::has_name(pokemon, x)
    &&& if o.type_filter matches Some(f) && f@ == name {
        forall|x: Seq<char>| #[trigger] m.type_members.has(x) == crate::pokeapi::store::has_name(pokemon, x)
    } else {
        m.type_members == o.type_members
    }
    &&& m == (AppState { type_cache: m.type_cache, type_members: m.type_members, ..o })
}

/// A loaded detail cached, its loading flag cleared and the message gone.
pub open spec fn detail_stage(o: AppState, m: AppState, d: PokemonDetail) -> bool {
    &&& forall|k: Seq<char>| #[trigger] m.details.get_spec(k) == if k == d.name@ { Some(d) } else { o.details.get_spec(k) }
    &&& m == (AppState { details: m.details, detail_loading: false, message: None, ..o })
}

/// A loaded species cached.
pub open spec fn species_cached(o: AppState, m: AppState, sp: PokemonSpecies) -> bool {
    &&& forall|k: Seq<char>| #[trigger] m.species.get_spec(k) == if k == sp.name@ { Some(sp) } else { o.species.get_spec(k) }
    &&& m == (AppState { species: m.species, ..o })
}

/// Loaded encounters cached and their loading flag cleared.
pub open spec fn encounters_cached(o: AppState, m: AppState, name: String, e: Vec<EncounterLocation>) -> bool {
    &&& forall|k: Seq<char>| #[trigger] m.encounter_cache.get_spec(k) == if k == name@ { Some(e) } else { o.encounter_cache.get_spec(k) }
    &&& m == (AppState { encounter_cache: m.encounter_cache, encounter_loading: false, ..o })
}

/// The tab moved by `step` (see `cycle_detail_tab`).
pub open spec fn tab_cycle_post(o: AppState, n: AppState, r: Outcome<Effect>, step: i16) -> bool {
    let next = tab_after(o.detail_mode, step);
    if next == o.detail_mode {
        unchanged_post(o, n, r)
    } else {
        tab_effects_post(AppState { detail_mode: next, ..o }, n, r)
    }
}

/// The tab's cursor moved by `delta`, then the data it needs asked for.
pub open spec fn tab_cursor_post(o: AppState, n: AppState, r: Outcome<Effect>, delta: i16) -> bool {
    ||| (advance_post(o, n, delta, false) && !r.changed && r.effects@.len() == 0)
    ||| exists|m: AppState| #[trigger] advance_post(o, m, delta, true) && tab_effects_post(m, n, r)
}

/// A tab cursor put on `index` of a list of `len`: `moved` tells whether
/// it moved.
pub open spec fn index_stage(o: AppState, m: AppState, len: Option<int>, index: usize, cur: usize, new_index: usize) -> bool {
    select_index_post(cur, len, index, new_index != cur, new_index)
}

/// After a cursor stage: nothing when it did not move, else the data the
/// tab needs.
pub open spec fn stage_effects_post(o: AppState, m: AppState, n: AppState, r: Outcome<Effect>) -> bool {
    if m == o {
        unchanged_post(o, n, r)
    } else {
        tab_effects_post(m, n, r)
    }
}

fn clear_search(state: &mut AppState, active: bool)
    ensures
        search_stage(*old(state), *final(state), active, seq![]),
{
    state.search.active = active;
    state.search.query = String::new();
}

fn names_of(entries: &Vec<crate::pokeapi::state::PokedexEntry>) -> (r: Vec<String>)
    ensures
        r@.map_values(|n: String| n@) == entries@.map_values(|e: crate::pokeapi::state::PokedexEntry| e.name@),
{
    let mut out: Vec<String> = Vec::new();
    let mut i: usize = 0;
    while i < entries.len()
        invariant
            i <= entries@.len(),
            out@.len() == i,
            forall|j: int| 0 <= j < i ==> (#[trigger] out@[j])@ == entries@[j].name@,
        decreases entries.len() - i,
    {
        out.push(entries[i].name.clone());
        i = i + 1;
    }
    assert(out@.map_values(|n: String| n@) =~= entries@.map_values(|e: crate::pokeapi::state::PokedexEntry| e.name@));
    out
}

fn copy_entries(entries: &Vec<crate::pokeapi::state::PokedexEntry>) -> (r: Vec<crate::pokeapi::state::PokedexEntry>)
    ensures
        r@ == entries@,
{
    let mut out: Vec<crate::pokeapi::state::PokedexEntry> = Vec::new();
    let mut i: usize = 0;
    while i < entries.len()
        invariant
            i <= entries@.len(),
            out@ == entries@.subrange(0, i as int),
        decreases entries.len() - i,
    {
        out.push(copy_entry(&entries[i]));
        assert(out@ =~= entries@.subrange(0, i + 1));
        i = i + 1;
    }
    assert(entries@.subrange(0, entries@.len() as int) =~= entries@);
    out
}

fn type_filter_is(state: &AppState, name: &str) -> (b: bool)
    ensures
        b == (state.type_filter matches Some(f) && f@ == name@),
{
    match &state.type_filter {
        Some(f) => str_eq(f.as_str(), name),
        None => false,
    }
}

fn detail_is(state: &AppState, name: &str) -> (b: bool)
    ensures
        b == (state.detail_name matches Some(d) && d@ == name@),
{
    match &state.detail_name {
        Some(d) => str_eq(d.as_str(), name),
        None => false,
    }
}

/// Handles the actions of group 1 of the reducer.
#[verifier::rlimit(60)]
fn reduce_part1(state: &mut AppState, action: Action) -> (r: Outcome<Effect>)
    requires
        action is Init || action is PokedexDidLoad || action is PokedexDidError || action is SpeciesIndexDidLoad || action is SpeciesIndexDidError || action is RegionsDidLoad || action is RegionsDidError || action is RegionNext || action is RegionPrev || action is FocusNext || action is FocusPrev || action is FocusSet || action is TypesDidLoad || action is TypesDidError,
    ensures
        reducer_post(*old(state), *final(state), r, action),
{
    match action {
        Action::Init => {
            state.list_loading = true;
            state.type_loading = true;
            state.region_loading = true;
            state.species_index_loading = true;
            state.message = None;
            let mut effects: Vec<Effect> = Vec::new();
            effects.push(Effect::LoadRegions);
            effects.push(Effect::LoadPokedex { name: owned("kanto") });
            effects.push(Effect::LoadTypes);
            assert(effects_view(effects@) =~= seq![
                EffectView::LoadRegions,
                EffectView::LoadPokedex("kanto"@),
                EffectView::LoadTypes,
            ]);
            Outcome::changed_with_many(effects)
        },
        Action::PokedexDidLoad(entries) => {
            let names = names_of(&entries);
            state.pokedex_all = entries;
            state.pokedex = Vec::new();
            state.filtered_indices = Vec::new();
            state.selected_index = 0;
            state.detail_name = None;
            state.list_loading = false;
            state.species_index_loading = true;
            state.reset_sprite_animation();
            state.reset_detail_selection();
            let mut effects: Vec<Effect> = Vec::new();
            effects.push(Effect::LoadSpeciesIndex { names });
            assert(effects_view(effects@) =~= seq![
                EffectView::LoadSpeciesIndex(entries@.map_values(|e: crate::pokeapi::state::PokedexEntry| e.name@)),
            ]);
            Outcome::changed_with_many(effects)
        },
        Action::PokedexDidError(error) => {
            state.list_loading = false;
            state.species_index_loading = false;
            set_message(state, join2("Pokedex error: ", error.as_str()));
            Outcome::changed()
        },
        Action::SpeciesIndexDidLoad(list) => species_index_loaded(state, list),
        Action::SpeciesIndexDidError(error) => {
            state.species_index_loading = false;
            set_message(state, join2("Species index error: ", error.as_str()));
            let ghost m = *state;
            state.pokedex = copy_entries(&state.pokedex_all);
            state.selected_index = 0;
            assert(restored_stage(m, *state));
            refilter_and_select(state)
        },
        Action::RegionsDidLoad(regions) => {
            regions_loaded(state, regions);
            Outcome::changed()
        },
        Action::RegionsDidError(error) => {
            state.region_loading = false;
            set_message(state, join2("Region error: ", error.as_str()));
            Outcome::changed()
        },
        Action::RegionNext => cycle_region(state, 1),
        Action::RegionPrev => cycle_region(state, -1),
        Action::FocusNext => {
            if state.search.active {
                return Outcome::unchanged();
            }
            state.focus_next();
            Outcome::changed()
        },
        Action::FocusPrev => {
            if state.search.active {
                return Outcome::unchanged();
            }
            state.focus_prev();
            Outcome::changed()
        },
        Action::FocusSet(area) => {
            if state.search.active || state.focus == area {
                return Outcome::unchanged();
            }
            state.focus = area;
            Outcome::changed()
        },
        Action::TypesDidLoad(types) => {
            state.type_loading = false;
            state.type_list = types;
            Outcome::changed()
        },
        Action::TypesDidError(error) => {
            state.type_loading = false;
            set_message(state, join2("Type error: ", error.as_str()));
            Outcome::changed()
        },
        _ => Outcome::unchanged(),
    }
}

/// Handles the actions of group 2 of the reducer.
#[verifier::rlimit(60)]
fn reduce_part2(state: &mut AppState, action: Action) -> (r: Outcome<Effect>)
    requires
        action is TypeFilterNext || action is TypeFilterPrev || action is TypeFilterClear || action is TypeFilterDidLoad || action is TypeFilterDidError || action is SelectionMove || action is SelectionPage || action is SelectionJumpTop || action is SelectionJumpBottom || action is DexSelect || action is SearchStart || action is SearchCancel || action is SearchSubmit || action is SearchInput || action is SearchBackspace,
    ensures
        reducer_post(*old(state), *final(state), r, action),
{
    match action {
        Action::TypeFilterNext => cycle_filter(state, 1),
        Action::TypeFilterPrev => cycle_filter(state, -1),
        Action::TypeFilterClear => {
            if state.type_filter.is_none() {
                return Outcome::unchanged();
            }
            let loading = state.type_loading;
            state.type_filter = None;
            state.type_members.clear();
            proof {
                let p = AppState { type_loading: false, ..*state };
                assert(cleared_filter(*old(state), p));
                assert(*state == (AppState { type_loading: loading, ..p }));
            }
            refilter_and_select(state)
        },
        Action::TypeFilterDidLoad { name, pokemon } => {
            let set = NameSet::from_names(pokemon);
            let current = type_filter_is(state, name.as_str());
            state.update_type_members(name.as_str(), set);
            let ghost m = *state;
            assert(type_members_stage(*old(state), m, name@, pokemon@));
            if current {
                state.type_loading = false;
                return refilter_and_select(state);
            }
            Outcome::changed()
        },
        Action::TypeFilterDidError { name, error } => {
            if type_filter_is(state, name.as_str()) {
                state.type_loading = false;
            }
            set_message(state, join4("Type ", name.as_str(), " error: ", error.as_str()));
            Outcome::changed()
        },
        Action::SelectionMove(delta) => {
            let i = offset(state.selected_index, delta as i64);
            move_cursor(state, i)
        },
        Action::SelectionPage(delta) => {
            #[verifier::truncate]
            let page = list_page_size(state) as i16;
            assert(-1_073_741_824 <= delta as i64 * page as i64 <= 1_073_741_824) by (nonlinear_arith)
                requires
                    -32768 <= delta <= 32767,
                    -32768 <= page <= 32767,
            ;
            let i = offset(state.selected_index, delta as i64 * page as i64);
            move_cursor(state, i)
        },
        Action::SelectionJumpTop => move_cursor(state, 0),
        Action::SelectionJumpBottom => {
            let last = state.filtered_indices.len().saturating_sub(1);
            move_cursor(state, last)
        },
        Action::DexSelect(index) => move_cursor(state, index),
        Action::SearchStart => {
            clear_search(state, true);
            let ghost p = *state;
            assert(search_stage(*old(state), p, true, seq![]));
            refilter_and_select(state)
        },
        Action::SearchCancel => {
            if !state.search.active && state.search.query.as_str().unicode_len() == 0 {
                return Outcome::unchanged();
            }
            clear_search(state, false);
            let ghost p = *state;
            assert(search_stage(*old(state), p, false, seq![]));
            refilter_and_select(state)
        },
        Action::SearchSubmit => {
            state.search.active = false;
            let ghost p = *state;
            assert(search_stage(*old(state), p, false, old(state).search.query@));
            refilter_and_select(state)
        },
        Action::SearchInput(ch) => {
            string_push(&mut state.search.query, ch);
            let ghost p = *state;
            assert(search_stage(*old(state), p, old(state).search.active, old(state).search.query@.push(ch)));
            refilter_and_select(state)
        },
        Action::SearchBackspace => {
            let _ = string_pop(&mut state.search.query);
            let ghost p = *state;
            assert(search_stage(*old(state), p, old(state).search.active, backspaced(old(state).search.query@)));
            refilter_and_select(state)
        },
        _ => Outcome::unchanged(),
    }
}

/// Handles the actions of group 3 of the reducer.
#[verifier::rlimit(60)]
fn reduce_part3(state: &mut AppState, action: Action) -> (r: Outcome<Effect>)
    requires
        action is PokemonDidLoad || action is PokemonDidError || action is PokemonSpeciesDidLoad || action is PokemonSpeciesDidError || action is EvolutionDidLoad || action is EvolutionDidError || action is EvolutionSelect || action is SpriteDidLoad || action is SpriteDidError || action is MoveDetailDidLoad || action is MoveDetailDidError || action is AbilityDetailDidLoad || action is AbilityDetailDidError || action is EncounterDidLoad || action is EncounterDidError || action is TypeMatchupDidLoad || action is TypeMatchupDidError,
    ensures
        reducer_post(*old(state), *final(state), r, action),
{
    match action {
        Action::PokemonDidLoad(detail) => {
            let name = detail.name.clone();
            let ghost d = detail;
            state.details.insert(detail.name.clone(), detail);
            state.detail_loading = false;
            state.message = None;
            let ghost m = *state;
            assert(detail_stage(*old(state), m, d));
            let effects = detail_follow_up(state, name.as_str());
            Outcome::changed_with_many(effects)
        },
        Action::PokemonDidError { name, error } => {
            state.detail_loading = false;
            let mut text = join2(name.as_str(), " load error: ");
            push_str(&mut text, error.as_str());
            set_message(state, text);
            Outcome::changed()
        },
        Action::PokemonSpeciesDidLoad(species) => {
            let name = species.name.clone();
            let ghost sp = species;
            state.species.insert(species.name.clone(), species);
            let ghost m = *state;
            assert(species_cached(*old(state), m, sp));
            let effects = evolution_follow_up(state, name.as_str());
            Outcome::changed_with_many(effects)
        },
        Action::PokemonSpeciesDidError { name, error } => {
            let mut text = join2(name.as_str(), " species error: ");
            push_str(&mut text, error.as_str());
            set_message(state, text);
            Outcome::changed()
        },
        Action::EvolutionDidLoad { id, chain } => {
            evolution_loaded(state, id, chain);
            Outcome::changed()
        },
        Action::EvolutionDidError { id, error } => {
            state.evolution_loading = false;
            set_message(state, join2("Evolution error: ", error.as_str()));
            Outcome::changed()
        },
        Action::EvolutionSelect(index) => evolution_select(state, index),
        Action::SpriteDidLoad { name, sprite } => {
            state.sprite_cache.insert(name, sprite);
            state.sprite_loading = false;
            state.reset_sprite_animation();
            Outcome::changed()
        },
        Action::SpriteDidError { name, error } => {
            state.sprite_loading = false;
            set_message(state, join4("Sprite error for ", name.as_str(), ": ", error.as_str()));
            Outcome::changed()
        },
        Action::MoveDetailDidLoad(detail) => {
            state.move_cache.insert(detail.name.clone(), detail);
            Outcome::changed()
        },
        Action::MoveDetailDidError { name, error } => {
            set_message(state, join4("Move ", name.as_str(), " error: ", error.as_str()));
            Outcome::changed()
        },
        Action::AbilityDetailDidLoad(detail) => {
            state.ability_cache.insert(detail.name.clone(), detail);
            Outcome::changed()
        },
        Action::AbilityDetailDidError { name, error } => {
            set_message(state, join4("Ability ", name.as_str(), " error: ", error.as_str()));
            Outcome::changed()
        },
        Action::EncounterDidLoad { name, encounters } => {
            let ghost e = encounters;
            state.encounter_cache.insert(name.clone(), encounters);
            state.encounter_loading = false;
            let ghost m = *state;
            assert(encounters_cached(*old(state), m, name, e));
            if detail_is(state, name.as_str()) {
                normalize_encounter_filter(state, name.as_str());
                state.selected_encounter_index = 0;
            }
            Outcome::changed()
        },
        Action::EncounterDidError { name, error } => {
            state.encounter_loading = false;
            set_message(state, join4("Encounters ", name.as_str(), " error: ", error.as_str()));
            Outcome::changed()
        },
        Action::TypeMatchupDidLoad { name, matchup } => {
            state.type_matchup_cache.insert(name, matchup);
            state.type_matchup_loading = current_matchup_loading(state);
            Outcome::changed()
        },
        Action::TypeMatchupDidError { name, error } => {
            state.type_matchup_loading = current_matchup_loading(state);
            set_message(state, join4("Type matchup ", name.as_str(), " error: ", error.as_str()));
            Outcome::changed()
        },
        _ => Outcome::unchanged(),
    }
}

/// Handles the actions of group 4 of the reducer.
#[verifier::rlimit(60)]
fn reduce_part4(state: &mut AppState, action: Action) -> (r: Outcome<Effect>)
    requires
        action is DetailModeToggle || action is DetailTabNext || action is DetailTabPrev || action is DetailNext || action is DetailPrev || action is MoveSelect || action is AbilitySelect || action is EncounterSelect || action is EncounterFilterNext || action is EncounterFilterPrev || action is ToggleFavorite || action is ToggleTeam || action is PlayCry || action is CryDidError || action is UiTerminalResize || action is Tick || action is Quit,
    ensures
        reducer_post(*old(state), *final(state), r, action),
{
    match action {
        Action::DetailModeToggle => cycle_detail_tab(state, 1),
        Action::DetailTabNext => cycle_detail_tab(state, 1),
        Action::DetailTabPrev => cycle_detail_tab(state, -1),
        Action::DetailNext => {
            if !advance_detail(state, 1) {
                return Outcome::unchanged();
            }
            let ghost m = *state;
            assert(advance_post(*old(state), m, 1i16, true));
            detail_selection_effects(state)
        },
        Action::DetailPrev => {
            if !advance_detail(state, -1) {
                return Outcome::unchanged();
            }
            let ghost m = *state;
            assert(advance_post(*old(state), m, -1i16, true));
            detail_selection_effects(state)
        },
        Action::MoveSelect(index) => {
            let moved = select_move_index(state, index);
            let ghost m = *state;
            assert(index_stage(*old(state), m, move_count(*old(state)), index, old(state).selected_move_index, m.selected_move_index));
            if !moved {
                return Outcome::unchanged();
            }
            detail_selection_effects(state)
        },
        Action::AbilitySelect(index) => {
            let moved = select_ability_index(state, index);
            let ghost m = *state;
            assert(index_stage(*old(state), m, ability_count(*old(state)), index, old(state).selected_ability_index, m.selected_ability_index));
            if !moved {
                return Outcome::unchanged();
            }
            detail_selection_effects(state)
        },
        Action::EncounterSelect(index) => {
            let moved = select_encounter_index(state, index);
            let ghost m = *state;
            assert(index_stage(*old(state), m, encounter_count(*old(state)), index, old(state).selected_encounter_index, m.selected_encounter_index));
            if !moved {
                return Outcome::unchanged();
            }
            detail_selection_effects(state)
        },
        Action::EncounterFilterNext => cycle_encounter_filter(state, 1),
        Action::EncounterFilterPrev => cycle_encounter_filter(state, -1),
        Action::ToggleFavorite => toggle_favorite(state),
        Action::ToggleTeam => toggle_team(state),
        Action::PlayCry => play_cry(state),
        Action::CryDidError(error) => {
            set_message(state, join2("Cry error: ", error.as_str()));
            Outcome::changed()
        },
        Action::UiTerminalResize(width, height) => {
            if state.terminal_size.0 == width && state.terminal_size.1 == height {
                return Outcome::unchanged();
            }
            state.terminal_size = (width, height);
            Outcome::changed()
        },
        Action::Tick => tick_animation(state),
        Action::Quit => Outcome::unchanged(),
        _ => Outcome::unchanged(),
    }
}

fn action_group(action: &Action) -> (g: u8)
    ensures
        g == 1 ==> (*action is Init || *action is PokedexDidLoad || *action is PokedexDidError || *action is SpeciesIndexDidLoad || *action is SpeciesIndexDidError || *action is RegionsDidLoad || *action is RegionsDidError || *action is RegionNext || *action is RegionPrev || *action is FocusNext || *action is FocusPrev || *action is FocusSet || *action is TypesDidLoad || *action is TypesDidError),
        g == 2 ==> (*action is TypeFilterNext || *action is TypeFilterPrev || *action is TypeFilterClear || *action is TypeFilterDidLoad || *action is TypeFilterDidError || *action is SelectionMove || *action is SelectionPage || *action is SelectionJumpTop || *action is SelectionJumpBottom || *action is DexSelect || *action is SearchStart || *action is SearchCancel || *action is SearchSubmit || *action is SearchInput || *action is SearchBackspace),
        g == 3 ==> (*action is PokemonDidLoad || *action is PokemonDidError || *action is PokemonSpeciesDidLoad || *action is PokemonSpeciesDidError || *action is EvolutionDidLoad || *action is EvolutionDidError || *action is EvolutionSelect || *action is SpriteDidLoad || *action is SpriteDidError || *action is MoveDetailDidLoad || *action is MoveDetailDidError || *action is AbilityDetailDidLoad || *action is AbilityDetailDidError || *action is EncounterDidLoad || *action is EncounterDidError || *action is TypeMatchupDidLoad || *action is TypeMatchupDidError),
        g == 4 ==> (*action is DetailModeToggle || *action is DetailTabNext || *action is DetailTabPrev || *action is DetailNext || *action is DetailPrev || *action is MoveSelect || *action is AbilitySelect || *action is EncounterSelect || *action is EncounterFilterNext || *action is EncounterFilterPrev || *action is ToggleFavorite || *action is ToggleTeam || *action is PlayCry || *action is CryDidError || *action is UiTerminalResize || *action is Tick || *action is Quit),
        1 <= g <= 4,
{
    match action {
        Action::Init{ .. } => 1,
        Action::PokedexDidLoad{ .. } => 1,
        Action::PokedexDidError{ .. } => 1,
        Action::SpeciesIndexDidLoad{ .. } => 1,
        Action::SpeciesIndexDidError{ .. } => 1,
        Action::RegionsDidLoad{ .. } => 1,
        Action::RegionsDidError{ .. } => 1,
        Action::RegionNext{ .. } => 1,
        Action::RegionPrev{ .. } => 1,
        Action::FocusNext{ .. } => 1,
        Action::FocusPrev{ .. } => 1,
        Action::FocusSet{ .. } => 1,
        Action::TypesDidLoad{ .. } => 1,
        Action::TypesDidError{ .. } => 1,
        Action::TypeFilterNext{ .. } => 2,
        Action::TypeFilterPrev{ .. } => 2,
        Action::TypeFilterClear{ .. } => 2,
        Action::TypeFilterDidLoad{ .. } => 2,
        Action::TypeFilterDidError{ .. } => 2,
        Action::SelectionMove{ .. } => 2,
        Action::SelectionPage{ .. } => 2,
        Action::SelectionJumpTop{ .. } => 2,
        Action::SelectionJumpBottom{ .. } => 2,
        Action::DexSelect{ .. } => 2,
        Action::SearchStart{ .. } => 2,
        Action::SearchCancel{ .. } => 2,
        Action::SearchSubmit{ .. } => 2,
        Action::SearchInput{ .. } => 2,
        Action::SearchBackspace{ .. } => 2,
        Action::PokemonDidLoad{ .. } => 3,
        Action::PokemonDidError{ .. } => 3,
        Action::PokemonSpeciesDidLoad{ .. } => 3,
        Action::PokemonSpeciesDidError{ .. } => 3,
        Action::EvolutionDidLoad{ .. } => 3,
        Action::EvolutionDidError{ .. } => 3,
        Action::EvolutionSelect{ .. } => 3,
        Action::SpriteDidLoad{ .. } => 3,
        Action::SpriteDidError{ .. } => 3,
        Action::MoveDetailDidLoad{ .. } => 3,
        Action::MoveDetailDidError{ .. } => 3,
        Action::AbilityDetailDidLoad{ .. } => 3,
        Action::AbilityDetailDidError{ .. } => 3,
        Action::EncounterDidLoad{ .. } => 3,
        Action::EncounterDidError{ .. } => 3,
        Action::TypeMatchupDidLoad{ .. } => 3,
        Action::TypeMatchupDidError{ .. } => 3,
        Action::DetailModeToggle{ .. } => 4,
        Action::DetailTabNext{ .. } => 4,
        Action::DetailTabPrev{ .. } => 4,
        Action::DetailNext{ .. } => 4,
        Action::DetailPrev{ .. } => 4,
        Action::MoveSelect{ .. } => 4,
        Action::AbilitySelect{ .. } => 4,
        Action::EncounterSelect{ .. } => 4,
        Action::EncounterFilterNext{ .. } => 4,
        Action::EncounterFilterPrev{ .. } => 4,
        Action::ToggleFavorite{ .. } => 4,
        Action::ToggleTeam{ .. } => 4,
        Action::PlayCry{ .. } => 4,
        Action::CryDidError{ .. } => 4,
        Action::UiTerminalResize{ .. } => 4,
        Action::Tick{ .. } => 4,
        Action::Quit{ .. } => 4,
    }
}

/// Applies one action to the browser.
pub fn reducer(state: &mut AppState, action: Action) -> (r: Outcome<Effect>)
    ensures
        reducer_post(*old(state), *final(state), r, action),
{
    let part = action_group(&action);
    if part == 1 {
        reduce_part1(state, action)
    } else if part == 2 {
        reduce_part2(state, action)
    } else if part == 3 {
        reduce_part3(state, action)
    } else {
        reduce_part4(state, action)
    }
}

/// Toggling the same entry twice gives back the favorites one started with,
/// and changes nothing else.
pub proof fn law_favorite_toggle_twice(
    a: AppState,
    b: AppState,
    c: AppState,
    first: Outcome<Effect>,
    second: Outcome<Effect>,
)
    requires
        favorite_post(a, b, first),
        favorite_post(b, c, second),
    ensures
        forall|k: Seq<char>| #[trigger] c.favorites.has(k) == a.favorites.has(k),
        c == (AppState { favorites: c.favorites, ..a }),
{
    assert(selected_entry_spec(b) == selected_entry_spec(a));
}

} // verus!
