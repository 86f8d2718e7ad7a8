//! How a game answers each action: walking, encounters, battles, the bag,
//! the party, menus, messages, saving and loading.
use vstd::prelude::*;
use crate::outcome::Outcome;
use crate::poketui::action::{Action, Effect};
use crate::poketui::battle::{
    damage_value, damage_with_roll, format_name, display_name, rng_out, rng_step, step_seed,
};
use crate::poketui::state::{
    calc_hp, hp_formula, stat_fits, AppState, ItemKind, ItemStack, PartyMember,
};

verus! {

/// Draws the next number from the game's generator.
pub fn next_rand(state: &mut AppState) -> (r: u32)
    ensures
        r == rng_out(old(state).rng_seed),
        *final(state) == (AppState { rng_seed: rng_step(old(state).rng_seed), ..*old(state) }),
{
    step_seed(&mut state.rng_seed)
}

/// Damage of an attack at `level` with `attack` against `defense`, its
/// spread drawn from the generator.
pub fn calc_damage(state: &mut AppState, level: u8, attack: u16, defense: u16) -> (d: u16)
    ensures
        d == damage_value(level, attack, defense, rng_out(old(state).rng_seed)),
        *final(state) == (AppState { rng_seed: rng_step(old(state).rng_seed), ..*old(state) }),
{
    let roll = next_rand(state);
    damage_with_roll(level, attack, defense, roll)
}

/// What showing `msg` does to the shown message and the queue behind it:
/// an empty message is dropped; with nothing shown it is shown; otherwise
/// it waits in line.
pub open spec fn message_pushed(o: AppState, n: AppState, msg: Seq<char>) -> bool {
    if msg.len() == 0 {
        n == o
    } else if o.message is None {
        &&& n.message matches Some(m) && m@ == msg
        &&& n == (AppState { message: n.message, ..o })
    } else {
        &&& n.message_queue@.len() == o.message_queue@.len() + 1
        &&& n.message_queue@.drop_last() == o.message_queue@
        &&& n.message_queue@.last()@ == msg
        &&& n == (AppState { message_queue: n.message_queue, ..o })
    }
}

pub fn push_message(state: &mut AppState, msg: String)
    ensures
        message_pushed(*old(state), *final(state), msg@),
{
    if msg.as_str().unicode_len() == 0 {
        return;
    }
    if state.message.is_none() {
        state.message = Some(msg);
    } else {
        let ghost before = state.message_queue@;
        state.message_queue.push_back(msg);
        assert(state.message_queue@.drop_last() =~= before);
    }
}

/// One move through the messages: the first waiting one is shown, or,
/// with none waiting, the shown one goes; with none shown, nothing moves.
pub open spec fn message_step(shown: Option<String>, waiting: Seq<String>) -> (Option<String>, Seq<String>) {
    if shown is None {
        (shown, waiting)
    } else if waiting.len() > 0 {
        (Some(waiting[0]), waiting.drop_first())
    } else {
        (None, waiting)
    }
}

/// The message shown after `moves` moves through the messages.
pub open spec fn shown_after(shown: Option<String>, waiting: Seq<String>, moves: nat) -> Option<String>
    decreases moves,
{
    if moves == 0 {
        shown
    } else {
        let (next, rest) = message_step(shown, waiting);
        shown_after(next, rest, (moves - 1) as nat)
    }
}

/// Moves on to the next waiting message, or clears the shown one.
pub fn message_next(state: &mut AppState) -> (r: Outcome<Effect>)
    ensures
        (final(state).message, final(state).message_queue@) == message_step(old(state).message, old(state).message_queue@),
        old(state).message is None ==> !r.changed && r.effects@.len() == 0 && *final(state) == *old(state),
        old(state).message is Some ==> {
            &&& r.changed
            &&& r.effects@.len() == 0
            &&& if old(state).message_queue@.len() > 0 {
                &&& final(state).message == Some(old(state).message_queue@[0])
                &&& final(state).message_queue@ == old(state).message_queue@.drop_first()
            } else {
                &&& final(state).message is None
                &&& final(state).message_queue@ == old(state).message_queue@
            }
            &&& *final(state) == (AppState { message: final(state).message, message_queue: final(state).message_queue, ..*old(state) })
        },
{
    if state.message.is_none() {
        return Outcome::unchanged();
    }
    match state.message_queue.pop_front() {
        Some(next) => {
            state.message = Some(next);
        },
        None => {
            state.message = None;
        },
    }
    assert(old(state).message_queue@.len() > 0 ==> old(state).message_queue@.subrange(1, old(state).message_queue@.len() as int) =~= old(state).message_queue@.drop_first());
    Outcome::changed()
}

/// Whether a stack is of `kind`.
pub open spec fn of_kind(kind: ItemKind) -> spec_fn(ItemStack) -> bool {
    |s: ItemStack| s.kind == kind
}

/// The stacks usable in battle: potions and super potions with some left,
/// as kind and count.
pub open spec fn usable_items(inv: Seq<ItemStack>) -> Seq<(ItemKind, u16)>
    decreases inv.len(),
{
    if inv.len() == 0 {
        seq![]
    } else {
        let rest = usable_items(inv.drop_last());
        let s = inv.last();
        if s.qty > 0 && (s.kind == ItemKind::Potion || s.kind == ItemKind::SuperPotion) {
            rest.push((s.kind, s.qty))
        } else {
            rest
        }
    }
}

pub fn available_items(inventory: &Vec<ItemStack>) -> (r: Vec<(ItemKind, u16)>)
    ensures
        r@ == usable_items(inventory@),
{
    let mut r: Vec<(ItemKind, u16)> = Vec::new();
    let mut i: usize = 0;
    while i < inventory.len()
        invariant
            i <= inventory@.len(),
            r@ == usable_items(inventory@.take(i as int)),
        decreases inventory.len() - i,
    {
        assert(inventory@.take(i + 1).drop_last() =~= inventory@.take(i as int));
        let s = inventory[i];
        if s.qty > 0 && (s.kind == ItemKind::Potion || s.kind == ItemKind::SuperPotion) {
            r.push((s.kind, s.qty));
        }
        i = i + 1;
    }
    assert(inventory@.take(inventory@.len() as int) =~= inventory@);
    r
}

/// Position of the first stack of `kind`.
pub fn find_stack(inventory: &Vec<ItemStack>, kind: ItemKind) -> (r: Option<usize>)
    ensures
        match r {
            Some(i) => i < inventory@.len() && crate::seqs::first_where(inventory@, of_kind(kind)) == Some(i as int),
            None => crate::seqs::first_where(inventory@, of_kind(kind)) is None,
        },
{
    let ghost p = of_kind(kind);
    let mut i: usize = 0;
    while i < inventory.len()
        invariant
            i <= inventory@.len(),
            p == of_kind(kind),
            forall|j: int| 0 <= j < i ==> !p(#[trigger] inventory@[j]),
        decreases inventory.len() - i,
    {
        if inventory[i].kind == kind {
            proof {
                crate::seqs::lemma_first_where_at(inventory@, p, i as int);
            }
            return Some(i);
        }
        i = i + 1;
    }
    proof {
        crate::seqs::lemma_first_where_at(inventory@, p, i as int);
    }
    None
}

/// The first stack of `kind`, if any.
pub open spec fn stack_of(inv: Seq<ItemStack>, kind: ItemKind) -> Option<int> {
    crate::seqs::first_where(inv, of_kind(kind))
}

/// The bag after one item of `kind` is used: the first stack of that kind
/// one smaller, if it has any left; else the bag as it was.
pub open spec fn with_taken(inv: Seq<ItemStack>, kind: ItemKind) -> Seq<ItemStack> {
    match stack_of(inv, kind) {
        Some(i) => if inv[i].qty > 0 {
            inv.update(i, ItemStack { kind, qty: (inv[i].qty - 1) as u16 })
        } else {
            inv
        },
        None => inv,
    }
}

/// The bag after `qty` items of `kind` are added: onto the first stack of
/// that kind, the count saturating, or as a new stack at the end.
pub open spec fn with_added(inv: Seq<ItemStack>, kind: ItemKind, qty: u16) -> Seq<ItemStack> {
    match stack_of(inv, kind) {
        Some(i) => inv.update(
            i,
            ItemStack { kind, qty: if inv[i].qty + qty > u16::MAX { u16::MAX } else { (inv[i].qty + qty) as u16 } },
        ),
        None => inv.push(ItemStack { kind, qty }),
    }
}

/// Uses up one item of `kind` from the first stack of that kind, if it has
/// any left.
pub fn take_item(inventory: &mut Vec<ItemStack>, kind: ItemKind) -> (taken: bool)
    ensures
        final(inventory)@ == with_taken(old(inventory)@, kind),
        taken == (stack_of(old(inventory)@, kind) matches Some(i) && old(inventory)@[i].qty > 0),
        taken ==> (stack_of(old(inventory)@, kind) matches Some(i) && final(inventory)@ == old(inventory)@.update(
            i,
            ItemStack { kind, qty: (old(inventory)@[i].qty - 1) as u16 },
        )),
        !taken ==> *final(inventory) == *old(inventory),
{
    match find_stack(inventory, kind) {
        Some(i) => {
            if inventory[i].qty > 0 {
                let q = inventory[i].qty - 1;
                inventory.set(i, ItemStack { kind, qty: q });
                true
            } else {
                false
            }
        },
        None => false,
    }
}

/// Adds `qty` items of `kind`: onto the first stack of that kind (the
/// count saturating), or as a new stack at the end.
pub fn add_item_to_inventory(inventory: &mut Vec<ItemStack>, kind: ItemKind, qty: u16)
    ensures
        final(inventory)@ == with_added(old(inventory)@, kind, qty),
        match stack_of(old(inventory)@, kind) {
            Some(i) => final(inventory)@ == old(inventory)@.update(
                i,
                ItemStack {
                    kind,
                    qty: if old(inventory)@[i].qty + qty > u16::MAX { u16::MAX } else { (old(inventory)@[i].qty + qty) as u16 },
                },
            ),
            None => final(inventory)@ == old(inventory)@.push(ItemStack { kind, qty }),
        },
{
    match find_stack(inventory, kind) {
        Some(i) => {
            let q = inventory[i].qty.saturating_add(qty);
            inventory.set(i, ItemStack { kind, qty: q });
        },
        None => {
            inventory.push(ItemStack { kind, qty });
        },
    }
}

/// Balls left in the first stack of balls.
pub fn pokeball_count(inventory: &Vec<ItemStack>) -> (n: u16)
    ensures
        n == match stack_of(inventory@, ItemKind::PokeBall) {
            Some(i) => inventory@[i].qty,
            None => 0,
        },
{
    match find_stack(inventory, ItemKind::PokeBall) {
        Some(i) => inventory[i].qty,
        None => 0,
    }
}

/// Every ability one turn closer to ready.
pub fn tick_ability_cooldowns(party: &mut Vec<PartyMember>)
    ensures
        final(party)@.len() == old(party)@.len(),
        forall|i: int|
            0 <= i < old(party)@.len() ==> #[trigger] final(party)@[i] == (PartyMember {
                ability_cd: if old(party)@[i].ability_cd > 0 { (old(party)@[i].ability_cd - 1) as u8 } else { 0 },
                ..old(party)@[i]
            }),
{
    let mut i: usize = 0;
    while i < party.len()
        invariant
            i <= party@.len(),
            party@.len() == old(party)@.len(),
            forall|j: int|
                0 <= j < i ==> #[trigger] party@[j] == (PartyMember {
                    ability_cd: if old(party)@[j].ability_cd > 0 { (old(party)@[j].ability_cd - 1) as u8 } else { 0 },
                    ..old(party)@[j]
                }),
            forall|j: int| i <= j < party@.len() ==> #[trigger] party@[j] == old(party)@[j],
        decreases party.len() - i,
    {
        if party[i].ability_cd > 0 {
            let mut m = party.remove(i);
            m.ability_cd = m.ability_cd - 1;
            party.insert(i, m);
        }
        i = i + 1;
    }
}

/// The state with the stand-in fields mirroring the active member; the
/// same state when there is none.
pub open spec fn legacy_synced(s: AppState) -> AppState {
    match s.active_spec() {
        Some(m) => AppState { player_info: Some(m.info), player_level: m.level, player_exp: m.exp, player_hp: m.hp, ..s },
        None => s,
    }
}

pub fn sync_legacy_from_active(state: &mut AppState)
    ensures
        *final(state) == legacy_synced(*old(state)),
{
    if state.active_party_index < state.party.len() {
        let m = state.party[state.active_party_index].clone();
        state.player_info = Some(m.info);
        state.player_level = m.level;
        state.player_exp = m.exp;
        state.player_hp = m.hp;
    }
}

/// Whether the active member's hit point formula fits in 16 bits.
pub open spec fn active_fits(s: AppState) -> bool {
    s.active_spec() matches Some(m) ==> stat_fits(m.info.hp, m.level)
}

/// The maximum hit points of a member, at least 1.
pub open spec fn member_max_hp(m: PartyMember) -> u16 {
    if hp_formula(m.info.hp, m.level) < 1 { 1 } else { hp_formula(m.info.hp, m.level) as u16 }
}

fn max_hp_of(m: &PartyMember) -> (h: u16)
    requires
        stat_fits(m.info.hp, m.level),
    ensures
        h == member_max_hp(*m),
{
    let h = calc_hp(m.info.hp, m.level);
    if h < 1 { 1 } else { h }
}

/// `n` is `o` with the active member's hit points set to `hp` and the
/// stand-in fields mirroring it.
pub open spec fn member_hp_set(o: AppState, n: AppState, hp: u16) -> bool {
    let i = o.active_party_index as int;
    let m = PartyMember { hp, ..o.party@[i] };
    &&& i < o.party@.len()
    &&& n.party@ == o.party@.update(i, m)
    &&& n == (AppState { party: n.party, player_info: Some(m.info), player_level: m.level, player_exp: m.exp, player_hp: hp, ..o })
}

/// Sets the active member's hit points and mirrors it.
fn set_active_hp(state: &mut AppState, hp: u16)
    requires
        old(state).active_party_index < old(state).party@.len(),
    ensures
        member_hp_set(*old(state), *final(state), hp),
{
    let i = state.active_party_index;
    let mut m = state.party[i].clone();
    m.hp = hp;
    state.party.set(i, m);
    sync_legacy_from_active(state);
}

pub open spec fn min_u16(a: u16, b: u16) -> u16 {
    if a < b { a } else { b }
}

/// After a battle step: the active member takes the battle's hit points,
/// capped at its maximum.
pub open spec fn active_hp_synced(o: AppState, n: AppState) -> bool {
    match (o.battle, o.active_spec()) {
        (Some(b), Some(m)) => member_hp_set(o, n, min_u16(b.player_hp, member_max_hp(m))),
        _ => n == o,
    }
}

pub fn sync_active_hp_from_battle(state: &mut AppState)
    requires
        active_fits(*old(state)),
    ensures
        active_hp_synced(*old(state), *final(state)),
{
    if state.battle.is_none() || state.active_party_index >= state.party.len() {
        return;
    }
    let hp = match &state.battle {
        Some(b) => b.player_hp,
        None => 0,
    };
    let max_hp = max_hp_of(&state.party[state.active_party_index]);
    let v = if hp < max_hp { hp } else { max_hp };
    set_active_hp(state, v);
}

/// The battle takes the active member's maximum and current hit points.
pub open spec fn battle_synced(o: AppState, n: AppState) -> bool {
    match (o.battle, o.active_spec()) {
        (Some(b), Some(m)) => n == (AppState {
            battle: Some(crate::poketui::state::BattleState {
                player_hp_max: member_max_hp(m),
                player_hp: min_u16(m.hp, member_max_hp(m)),
                ..b
            }),
            ..o
        }),
        _ => n == o,
    }
}

pub fn sync_battle_from_active(state: &mut AppState)
    requires
        active_fits(*old(state)),
    ensures
        battle_synced(*old(state), *final(state)),
{
    if state.active_party_index >= state.party.len() {
        return;
    }
    let max_hp = max_hp_of(&state.party[state.active_party_index]);
    let hp = state.party[state.active_party_index].hp;
    match state.battle.take() {
        Some(mut b) => {
            b.player_hp_max = max_hp;
            b.player_hp = if hp < max_hp { hp } else { max_hp };
            state.battle = Some(b);
        },
        None => {},
    }
}

/// Heals the active member by `amount`, up to its maximum, and mirrors it
/// into the stand-in fields and the battle.
pub open spec fn healed(o: AppState, n: AppState, amount: u16) -> bool {
    match o.active_spec() {
        Some(m) => {
            let hp = min_u16(if m.hp + amount > u16::MAX { u16::MAX } else { (m.hp + amount) as u16 }, member_max_hp(m));
            exists|mid: AppState| member_hp_set(o, mid, hp) && #[trigger] battle_synced(mid, n)
        },
        None => n == o,
    }
}

pub fn heal_active_member(state: &mut AppState, amount: u16)
    requires
        active_fits(*old(state)),
    ensures
        healed(*old(state), *final(state), amount),
{
    if state.active_party_index >= state.party.len() {
        return;
    }
    let max_hp = max_hp_of(&state.party[state.active_party_index]);
    let raised = state.party[state.active_party_index].hp.saturating_add(amount);
    let v = if raised < max_hp { raised } else { max_hp };
    set_active_hp(state, v);
    let ghost mid = *state;
    sync_battle_from_active(state);
    assert(member_hp_set(*old(state), mid, v) && battle_synced(mid, *state));
}

/// Whether every member's hit point formula fits in 16 bits.
pub open spec fn party_fits(s: AppState) -> bool {
    forall|i: int| 0 <= i < s.party@.len() ==> stat_fits(#[trigger] s.party@[i].info.hp, s.party@[i].level)
}

/// The party in the order a switch looks at it: from the member after the
/// active one, round to the active one itself.
pub open spec fn switch_order(s: AppState) -> Seq<PartyMember> {
    let n = s.party@.len() as int;
    Seq::new(s.party@.len(), |k: int| s.party@[(s.active_party_index + k + 1) % n])
}

/// Whether a member can still fight.
pub open spec fn can_fight() -> spec_fn(PartyMember) -> bool {
    |m: PartyMember| m.hp > 0
}

/// The index a switch moves to: the first member in `switch_order` that
/// can fight.
pub open spec fn next_alive(s: AppState) -> Option<int> {
    match crate::seqs::first_where(switch_order(s), can_fight()) {
        Some(k) => Some((s.active_party_index + k + 1) % (s.party@.len() as int)),
        None => None,
    }
}

/// Makes the next member that can fight the active one, mirrors it into
/// the stand-in fields and the battle, and gives its display name; `None`,
/// changing nothing, when no member can fight.
pub fn switch_to_next_alive(state: &mut AppState) -> (r: Option<String>)
    requires
        party_fits(*old(state)),
        old(state).active_party_index + old(state).party@.len() <= usize::MAX,
    ensures
        match next_alive(*old(state)) {
            Some(i) => {
                let chosen = AppState { active_party_index: i as usize, ..*old(state) };
                &&& r matches Some(name) && name@ == display_name(old(state).party@[i].info.name@)
                &&& battle_synced(legacy_synced(chosen), *final(state))
            },
            None => r is None && *final(state) == *old(state),
        },
{
    let len = state.party.len();
    if len == 0 {
        proof {
            assert(switch_order(*old(state)).len() == 0);
        }
        return None;
    }
    let start = state.active_party_index;
    let ghost order = switch_order(*old(state));
    let ghost p = can_fight();
    let mut k: usize = 0;
    while k < len
        invariant
            k <= len,
            len == state.party@.len(),
            start == state.active_party_index,
            start + len <= usize::MAX,
            *state == *old(state),
            order == switch_order(*old(state)),
            p == can_fight(),
            party_fits(*old(state)),
            forall|j: int| 0 <= j < k ==> !p(#[trigger] order[j]),
        decreases len - k,
    {
        let idx = (start + k + 1) % len;
        assert(order[k as int] == state.party@[idx as int]);
        if state.party[idx].hp > 0 {
            proof {
                crate::seqs::lemma_first_where_at(order, p, k as int);
            }
            let name = format_name(state.party[idx].info.name.as_str());
            state.active_party_index = idx;
            sync_legacy_from_active(state);
            assert(stat_fits(state.party@[idx as int].info.hp, state.party@[idx as int].level));
            sync_battle_from_active(state);
            return Some(name);
        }
        k = k + 1;
    }
    proof {
        crate::seqs::lemma_first_where_at(order, p, len as int);
    }
    None
}

pub open spec fn sat_add_u32(a: u32, b: u32) -> u32 {
    if a + b > u32::MAX { u32::MAX } else { (a + b) as u32 }
}

/// Base experience of the enemy being fought; 60 when unknown.
pub open spec fn enemy_base_exp(s: AppState) -> u16 {
    match s.enemy_info {
        Some(i) => i.base_experience,
        None => 60,
    }
}

/// What winning against an enemy of `enemy_level` gives: experience to the
/// active member (or the stand-in fields), levels gained while the
/// thresholds are met; the result is the experience gained and the levels.
pub open spec fn exp_awarded(o: AppState, n: AppState, enemy_level: u8, r: (u32, u8)) -> bool {
    let g = crate::poketui::battle::exp_gain(enemy_base_exp(o), enemy_level);
    &&& r.0 == g
    &&& match o.active_spec() {
        Some(m) => {
            let exp = sat_add_u32(m.exp, g);
            let lvl = crate::poketui::battle::level_after(m.level, exp);
            let m2 = PartyMember { exp, level: lvl, ..m };
            &&& r.1 == lvl - m.level
            &&& n.party@ == o.party@.update(o.active_party_index as int, m2)
            &&& n == legacy_synced(AppState { party: n.party, ..o })
        },
        None => {
            let exp = sat_add_u32(o.player_exp, g);
            let lvl = crate::poketui::battle::level_after(o.player_level, exp);
            &&& r.1 == lvl - o.player_level
            &&& n == (AppState { player_exp: exp, player_level: lvl, ..o })
        },
    }
}

pub fn award_exp(state: &mut AppState, enemy_level: u8) -> (r: (u32, u8))
    ensures
        exp_awarded(*old(state), *final(state), enemy_level, r),
{
    let base = match &state.enemy_info {
        Some(i) => i.base_experience,
        None => 60,
    };
    let gained = crate::poketui::battle::exp_reward(base, enemy_level);
    if state.active_party_index < state.party.len() {
        let i = state.active_party_index;
        let mut m = state.party[i].clone();
        let start = m.level;
        m.exp = m.exp.saturating_add(gained);
        m.level = crate::poketui::battle::raise_level(m.level, m.exp);
        let levels = m.level - start;
        state.party.set(i, m);
        sync_legacy_from_active(state);
        return (gained, levels);
    }
    let start = state.player_level;
    state.player_exp = state.player_exp.saturating_add(gained);
    state.player_level = crate::poketui::battle::raise_level(state.player_level, state.player_exp);
    (gained, state.player_level - start)
}

/// The prompt of the battle menu.
pub open spec fn menu_prompt(s: AppState) -> Seq<char> {
    "What will "@ + display_name(s.name_spec()) + " do?"@
}

/// `n` is `o` with the battle's message set to `msg`; no battle, no
/// change.
pub open spec fn battle_message_set(o: AppState, n: AppState, msg: Seq<char>) -> bool {
    match o.battle {
        Some(b) => n.battle matches Some(nb) && nb.message@ == msg && n == (AppState {
            battle: Some(crate::poketui::state::BattleState { message: nb.message, ..b }),
            ..o
        }),
        None => n == o,
    }
}

/// Replaces the battle's message.
pub fn set_battle_message(state: &mut AppState, msg: String)
    ensures
        battle_message_set(*old(state), *final(state), msg@),
{
    match state.battle.take() {
        Some(mut b) => {
            b.message = msg;
            state.battle = Some(b);
        },
        None => {},
    }
}

/// Asks what the player's creature will do.
pub fn set_battle_menu_prompt(state: &mut AppState)
    ensures
        battle_message_set(*old(state), *final(state), menu_prompt(*old(state))),
{
    let name = format_name(state.player_name().as_str());
    let mut msg = crate::text::owned("What will ");
    crate::text::push_str(&mut msg, name.as_str());
    crate::text::push_str(&mut msg, " do?");
    set_battle_message(state, msg);
}

/// Asks for an item.
pub fn set_battle_item_prompt(state: &mut AppState)
    ensures
        battle_message_set(*old(state), *final(state), "Choose an item."@),
{
    set_battle_message(state, crate::text::owned("Choose an item."));
}

/// A menu position moved by `delta`, wrapping round a menu of `len`.
pub open spec fn menu_step(current: int, delta: int, len: int) -> int {
    let next = current + delta;
    if next < 0 {
        len - 1
    } else if next >= len {
        0
    } else {
        next
    }
}

/// The number of entries of the battle's current menu, as the menu
/// counts them: 5 in the main menu, the usable items (in 16 signed bits)
/// in the item menu; none elsewhere or without a battle.
pub open spec fn menu_len(s: AppState) -> int {
    match s.battle {
        Some(b) => match b.stage {
            crate::poketui::state::BattleStage::Menu => 5,
            crate::poketui::state::BattleStage::ItemMenu => (usable_items(s.inventory@).len() as i16) as int,
            _ => 0,
        },
        None => 0,
    }
}

/// The position in the battle's current menu, in 16 signed bits.
pub open spec fn menu_pos(s: AppState) -> int {
    match s.battle {
        Some(b) => match b.stage {
            crate::poketui::state::BattleStage::Menu => (b.menu_index as i16) as int,
            crate::poketui::state::BattleStage::ItemMenu => (b.item_index as i16) as int,
            _ => 0,
        },
        None => 0,
    }
}

/// Moves the cursor of the battle's menu by `delta`, wrapping round.
pub fn battle_menu_change(state: &mut AppState, delta: i16) -> (r: Outcome<Effect>)
    requires
        menu_len(*old(state)) != 0 ==> i16::MIN <= menu_pos(*old(state)) + delta <= i16::MAX,
        menu_len(*old(state)) != 0 && menu_pos(*old(state)) + delta < 0 ==> menu_len(*old(state)) > i16::MIN,
    ensures
        r.effects@.len() == 0,
        ({
            let len = menu_len(*old(state));
            let next = menu_step(menu_pos(*old(state)), delta as int, len);
            if len == 0 || (next as usize) == (menu_pos(*old(state)) as usize) {
                !r.changed && *final(state) == *old(state)
            } else {
                &&& r.changed
                &&& old(state).battle matches Some(b) && final(state).battle == Some(
                    if b.stage == crate::poketui::state::BattleStage::Menu {
                        crate::poketui::state::BattleState { menu_index: next as usize, ..b }
                    } else {
                        crate::poketui::state::BattleState { item_index: next as usize, ..b }
                    },
                )
                &&& *final(state) == (AppState { battle: final(state).battle, ..*old(state) })
            }
        }),
{
    let (stage, menu_index, item_index) = match &state.battle {
        Some(b) => (b.stage, b.menu_index, b.item_index),
        None => return Outcome::unchanged(),
    };
    let len: i16 = if stage == crate::poketui::state::BattleStage::Menu {
        5
    } else if stage == crate::poketui::state::BattleStage::ItemMenu {
        let count = available_items(&state.inventory).len() as i16;
        if count == 0 {
            return Outcome::unchanged();
        }
        count
    } else {
        return Outcome::unchanged();
    };
    let current: i16 = if stage == crate::poketui::state::BattleStage::Menu {
        menu_index as i16
    } else {
        item_index as i16
    };
    let mut next: i16 = current + delta;
    if next < 0 {
        next = len - 1;
    }
    if next >= len {
        next = 0;
    }
    if next as usize == current as usize {
        return Outcome::unchanged();
    }
    match state.battle.take() {
        Some(mut b) => {
            if stage == crate::poketui::state::BattleStage::Menu {
                b.menu_index = next as usize;
            } else {
                b.item_index = next as usize;
            }
            state.battle = Some(b);
        },
        None => {},
    }
    Outcome::changed()
}

/// Whether `action` can be answered in `s` without overflow: each answer
/// needs its numbers to fit in their widths.
pub open spec fn action_ok(s: AppState, action: Action) -> bool {
    match action {
        Action::Tick => crate::poketui::loading::frames_ok(s),
        Action::Move(_) => s.max_hp_fits(),
        Action::BattleMenuNext => menu_len(s) != 0 ==> (i16::MIN <= menu_pos(s) + 1 <= i16::MAX && (menu_pos(s) + 1 < 0 ==> menu_len(s) > i16::MIN)),
        Action::BattleMenuPrev => menu_len(s) != 0 ==> (i16::MIN <= menu_pos(s) - 1 <= i16::MAX && (menu_pos(s) - 1 < 0 ==> menu_len(s) > i16::MIN)),
        Action::BattleConfirm => crate::poketui::confirm::battle_fits(s),
        Action::ScenarioLoaded { scenario } => crate::poketui::menus::scenario_ok(scenario),
        Action::StarterConfirm => crate::poketui::events::can_scatter(s),
        Action::LoadComplete(loaded) => crate::poketui::menus::loadable(*loaded),
        Action::PokemonDidLoad { target, info } => crate::poketui::loading::loaded_fits(s, target, info),
        _ => true,
    }
}

/// What each action does to the game.
pub open spec fn reduced(o: AppState, n: AppState, action: Action, catch_odds: u8, r: Outcome<Effect>) -> bool {
    match action {
        Action::Init => crate::poketui::dispatch::started(o, n, r),
        Action::UiTerminalResize(w, h) => if o.terminal_size != (w, h) {
            r.changed && r.effects@.len() == 0 && n == (AppState { terminal_size: (w, h), ..o })
        } else {
            !r.changed && r.effects@.len() == 0 && n == o
        },
        Action::Tick => crate::poketui::loading::ticked(o, n, r),
        Action::Move(d) => crate::poketui::overworld::moved(o, n, d, r),
        Action::BattleMenuNext => menu_moved(o, n, 1, r),
        Action::BattleMenuPrev => menu_moved(o, n, -1, r),
        Action::BattleConfirm => crate::poketui::confirm::confirmed(o, n, catch_odds, r),
        Action::BattleItemCancel => crate::poketui::dispatch::item_menu_left(o, n, r),
        Action::MessageNext => message_moved_on(o, n, r),
        Action::MenuSelect(i) => r.changed && r.effects@.len() == 0 && n == (AppState {
            menu: match o.menu {
                Some(m) => Some(crate::poketui::state::MenuState { selected: i, ..m }),
                None => None,
            },
            ..o
        }),
        Action::MenuConfirm => crate::poketui::menus::menu_confirmed(o, n, r),
        Action::SaveExists(e) => r.changed && r.effects@.len() == 0 && n == (AppState {
            menu: match o.menu {
                Some(m) => Some(crate::poketui::state::MenuState { has_save: e, ..m }),
                None => None,
            },
            ..o
        }),
        Action::ScenarioLoaded { scenario } => r.changed && r.effects@ == seq![Effect::CheckSaveExists]
            && crate::poketui::menus::scenario_applied(o, n, scenario),
        Action::ScenarioLoadError { error } => r.changed && r.effects@ == seq![Effect::CheckSaveExists]
            && crate::poketui::dispatch::noted(AppState { scenario: None, ..o }, n, "Scenario load failed: "@, error@),
        Action::PartySpriteLoaded { index, sprite } => r.changed && r.effects@.len() == 0
            && crate::poketui::dispatch::party_sprite_arrived(o, n, index, sprite),
        Action::PartySpriteError { index, error } => r.changed && r.effects@.len() == 0
            && crate::poketui::dispatch::party_sprite_failed(o, n, index, error@),
        Action::StarterSelect(i) => crate::poketui::menus::starter_selected(o, n, i, r),
        Action::StarterConfirm => crate::poketui::menus::starter_confirmed(o, n, r),
        Action::StarterPreviewLoaded { info } => crate::poketui::dispatch::preview_arrived(o, n, info, r),
        Action::StarterPreviewSpriteLoaded { sprite } => r.changed && r.effects@.len() == 0
            && crate::poketui::dispatch::preview_sprite_arrived(o, n, sprite),
        Action::StarterPreviewError { error } => r.changed && r.effects@.len() == 0
            && crate::poketui::dispatch::preview_failed(o, n, error@),
        Action::PauseOpen => r.changed && r.effects@.len() == 0 && n == if o.mode == crate::poketui::state::GameMode::Overworld
            || o.mode == crate::poketui::state::GameMode::Battle {
            AppState { pause_menu: crate::poketui::state::PauseMenuState { is_open: true, selected: 0 }, ..o }
        } else {
            o
        },
        Action::PauseClose => r.changed && r.effects@.len() == 0 && n == (AppState {
            pause_menu: crate::poketui::state::PauseMenuState { is_open: false, ..o.pause_menu },
            ..o
        }),
        Action::PauseSelect(i) => r.changed && r.effects@.len() == 0 && n == (AppState {
            pause_menu: crate::poketui::state::PauseMenuState { selected: i, ..o.pause_menu },
            ..o
        }),
        Action::PauseConfirm => crate::poketui::menus::pause_confirmed(o, n, r),
        Action::SaveGame => r.changed && n == o && r.effects@.len() == 1 && (r.effects@[0] matches Effect::SaveGame { state: snap }
            && snap.mode == o.mode && snap.player == o.player && snap.rng_seed == o.rng_seed && snap.inventory@ == o.inventory@),
        Action::SaveComplete => r.changed && r.effects@.len() == 0 && exists|s1: AppState| #[trigger] message_pushed(o, s1, "Game saved!"@)
            && n == (AppState { pause_menu: crate::poketui::state::PauseMenuState { is_open: false, ..s1.pause_menu }, ..s1 }),
        Action::SaveError(e) => r.changed && r.effects@.len() == 0 && crate::poketui::dispatch::noted(o, n, "Save failed: "@, e@),
        Action::LoadGame => r.changed && r.effects@ == seq![Effect::LoadGame] && n == o,
        Action::LoadComplete(loaded) => crate::poketui::dispatch::game_loaded(o, n, *loaded, r),
        Action::LoadError(e) => r.changed && r.effects@.len() == 0 && crate::poketui::dispatch::noted(o, n, "Load failed: "@, e@),
        Action::PokemonDidLoad { target, info } => crate::poketui::loading::pokemon_arrived(o, n, target, info, r),
        Action::PokemonDidError { target, name, error } => r.changed && r.effects@.len() == 0
            && crate::poketui::loading::pokemon_failed(o, n, target, name@, error@),
        Action::SpriteDidLoad { target, sprite } => r.changed && r.effects@.len() == 0 && match target {
            crate::poketui::state::SpriteTarget::Player => crate::poketui::loading::sprite_shown(o.player_sprite, n.player_sprite, sprite)
                && n == (AppState { player_sprite: n.player_sprite, ..o }),
            crate::poketui::state::SpriteTarget::Enemy => crate::poketui::loading::sprite_shown(o.enemy_sprite, n.enemy_sprite, sprite)
                && n == (AppState { enemy_sprite: n.enemy_sprite, ..o }),
        },
        Action::SpriteDidError { target, error } => r.changed && r.effects@.len() == 0
            && crate::poketui::loading::sprite_failed(o, n, target, error@),
        Action::Quit => !r.changed && r.effects@.len() == 0 && n == o,
    }
}

/// The battle menu's cursor moved by `delta`, as `battle_menu_change` does.
pub open spec fn menu_moved(o: AppState, n: AppState, delta: int, r: Outcome<Effect>) -> bool {
    let len = menu_len(o);
    let next = menu_step(menu_pos(o), delta, len);
    &&& r.effects@.len() == 0
    &&& if len == 0 || (next as usize) == (menu_pos(o) as usize) {
        !r.changed && n == o
    } else {
        &&& r.changed
        &&& o.battle matches Some(b) && n.battle == Some(
            if b.stage == crate::poketui::state::BattleStage::Menu {
                crate::poketui::state::BattleState { menu_index: next as usize, ..b }
            } else {
                crate::poketui::state::BattleState { item_index: next as usize, ..b }
            },
        )
        &&& n == (AppState { battle: n.battle, ..o })
    }
}

/// The next message on show, as `message_next` does.
pub open spec fn message_moved_on(o: AppState, n: AppState, r: Outcome<Effect>) -> bool {
    if o.message is None {
        !r.changed && r.effects@.len() == 0 && n == o
    } else {
        &&& r.changed
        &&& r.effects@.len() == 0
        &&& if o.message_queue@.len() > 0 {
            &&& n.message == Some(o.message_queue@[0])
            &&& n.message_queue@ == o.message_queue@.drop_first()
        } else {
            &&& n.message is None
            &&& n.message_queue@ == o.message_queue@
        }
        &&& n == (AppState { message: n.message, message_queue: n.message_queue, ..o })
    }
}

/// Answers an action. `catch_odds` is how many of the hundred rolls 0 to 99
/// catch the enemy at its current hit points; only a ball thrown reads it.
#[verifier::spinoff_prover]
#[verifier::rlimit(80)]
pub fn reducer(state: &mut AppState, action: Action, catch_odds: u8) -> (r: Outcome<Effect>)
    requires
        action_ok(*old(state), action),
    ensures
        reduced(*old(state), *final(state), action, catch_odds, r),
{
    match action {
        Action::Init => crate::poketui::dispatch::init(state),
        Action::UiTerminalResize(w, h) => {
            if state.terminal_size.0 != w || state.terminal_size.1 != h {
                state.terminal_size = (w, h);
                Outcome::changed()
            } else {
                Outcome::unchanged()
            }
        },
        Action::Tick => crate::poketui::loading::tick_animation(state),
        Action::Move(d) => crate::poketui::overworld::move_player(state, d),
        Action::BattleMenuNext => battle_menu_change(state, 1),
        Action::BattleMenuPrev => battle_menu_change(state, -1),
        Action::BattleConfirm => crate::poketui::confirm::battle_confirm(state, catch_odds),
        Action::BattleItemCancel => crate::poketui::dispatch::cancel_item_menu(state),
        Action::MessageNext => message_next(state),
        Action::MenuSelect(i) => {
            match state.menu {
                Some(m) => state.menu = Some(crate::poketui::state::MenuState { selected: i, ..m }),
                None => {},
            }
            Outcome::changed()
        },
        Action::MenuConfirm => crate::poketui::menus::menu_confirm(state),
        Action::SaveExists(e) => {
            match state.menu {
                Some(m) => state.menu = Some(crate::poketui::state::MenuState { has_save: e, ..m }),
                None => {},
            }
            Outcome::changed()
        },
        Action::ScenarioLoaded { scenario } => {
            crate::poketui::menus::apply_scenario(state, scenario);
            Outcome::changed_with(Effect::CheckSaveExists)
        },
        Action::ScenarioLoadError { error } => {
            state.scenario = None;
            crate::poketui::dispatch::note(state, "Scenario load failed: ", error.as_str());
            Outcome::changed_with(Effect::CheckSaveExists)
        },
        Action::PartySpriteLoaded { index, sprite } => crate::poketui::dispatch::party_sprite_loaded(state, index, sprite),
        Action::PartySpriteError { index, error } => crate::poketui::dispatch::party_sprite_error(state, index, error.as_str()),
        Action::StarterSelect(i) => crate::poketui::menus::starter_select(state, i),
        Action::StarterConfirm => crate::poketui::menus::starter_confirm(state),
        Action::StarterPreviewLoaded { info } => crate::poketui::dispatch::preview_loaded(state, info),
        Action::StarterPreviewSpriteLoaded { sprite } => crate::poketui::dispatch::preview_sprite_loaded(state, sprite),
        Action::StarterPreviewError { error } => crate::poketui::dispatch::preview_error(state, error.as_str()),
        Action::PauseOpen => {
            if state.mode == crate::poketui::state::GameMode::Overworld || state.mode == crate::poketui::state::GameMode::Battle {
                state.pause_menu.is_open = true;
                state.pause_menu.selected = 0;
            }
            Outcome::changed()
        },
        Action::PauseClose => {
            state.pause_menu.is_open = false;
            Outcome::changed()
        },
        Action::PauseSelect(i) => {
            state.pause_menu.selected = i;
            Outcome::changed()
        },
        Action::PauseConfirm => crate::poketui::menus::pause_confirm(state),
        Action::SaveGame => Outcome::changed_with(Effect::SaveGame { state: Box::new(state.clone()) }),
        Action::SaveComplete => {
            push_message(state, crate::text::owned("Game saved!"));
            let ghost s1 = *state;
            state.pause_menu.is_open = false;
            assert(message_pushed(*old(state), s1, "Game saved!"@));
            Outcome::changed()
        },
        Action::SaveError(e) => {
            crate::poketui::dispatch::note(state, "Save failed: ", e.as_str());
            Outcome::changed()
        },
        Action::LoadGame => Outcome::changed_with(Effect::LoadGame),
        Action::LoadComplete(loaded) => crate::poketui::dispatch::load_complete(state, *loaded),
        Action::LoadError(e) => {
            crate::poketui::dispatch::note(state, "Load failed: ", e.as_str());
            Outcome::changed()
        },
        Action::PokemonDidLoad { target, info } => crate::poketui::loading::pokemon_loaded(state, target, info),
        Action::PokemonDidError { target, name, error } => crate::poketui::loading::pokemon_error(state, target, name.as_str(), error.as_str()),
        Action::SpriteDidLoad { target, sprite } => crate::poketui::loading::sprite_loaded(state, target, sprite),
        Action::SpriteDidError { target, error } => crate::poketui::loading::sprite_error(state, target, error.as_str()),
        Action::Quit => Outcome::unchanged(),
    }
}

/// A waiting message is shown once every message ahead of it has been
/// moved past: after a message is queued behind a shown one, it is the one
/// shown after as many moves as there were messages ahead of it.
pub proof fn law_messages_first_in_first_out(o: AppState, n: AppState, msg: Seq<char>)
    requires
        message_pushed(o, n, msg),
        msg.len() > 0,
        o.message is Some,
    ensures
        shown_after(n.message, n.message_queue@, (o.message_queue@.len() + 1) as nat) matches Some(m) && m@ == msg,
{
    lemma_last_waiting_shown(n.message, n.message_queue@, msg);
}

proof fn lemma_last_waiting_shown(shown: Option<String>, waiting: Seq<String>, msg: Seq<char>)
    requires
        shown is Some,
        waiting.len() > 0,
        waiting.last()@ == msg,
    ensures
        shown_after(shown, waiting, waiting.len()) matches Some(m) && m@ == msg,
    decreases waiting.len(),
{
    let (next, rest) = message_step(shown, waiting);
    if waiting.len() > 1 {
        assert(rest.last() == waiting.last());
        lemma_last_waiting_shown(next, rest, msg);
        assert(shown_after(shown, waiting, waiting.len()) == shown_after(next, rest, rest.len()));
    } else {
        assert(shown_after(next, rest, 0) == next);
    }
}

/// A menu cursor stepped by one either way stays within the menu, and a
/// step back undoes a step forward.
pub proof fn law_menu_step_wraps(current: int, delta: int, len: int)
    requires
        0 <= current < len,
        delta == 1 || delta == -1,
    ensures
        0 <= menu_step(current, delta, len) < len,
        menu_step(menu_step(current, delta, len), -delta, len) == current,
{
}

/// Adding one item of a kind the bag already holds, short of the most a
/// stack can hold, and then using one of that kind gives back the bag.
pub proof fn law_add_then_take(inv: Seq<ItemStack>, kind: ItemKind)
    requires
        stack_of(inv, kind) matches Some(i) && inv[i].qty < u16::MAX,
    ensures
        with_taken(with_added(inv, kind, 1), kind) == inv,
{
    let i = stack_of(inv, kind)->0;
    crate::seqs::lemma_first_where_found(inv, of_kind(kind), i);
    let added = with_added(inv, kind, 1);
    crate::seqs::lemma_first_where_replace(inv, of_kind(kind), i, ItemStack { kind, qty: (inv[i].qty + 1) as u16 });
    assert(stack_of(added, kind) == Some(i));
    assert(with_taken(added, kind) =~= inv);
}

/// Using an item and adding it back gives back the bag.
pub proof fn law_take_then_add(inv: Seq<ItemStack>, kind: ItemKind)
    requires
        stack_of(inv, kind) matches Some(i) && inv[i].qty > 0,
    ensures
        with_added(with_taken(inv, kind), kind, 1) == inv,
{
    let i = stack_of(inv, kind)->0;
    crate::seqs::lemma_first_where_found(inv, of_kind(kind), i);
    let taken = with_taken(inv, kind);
    crate::seqs::lemma_first_where_replace(inv, of_kind(kind), i, ItemStack { kind, qty: (inv[i].qty - 1) as u16 });
    assert(stack_of(taken, kind) == Some(i));
    assert(with_added(taken, kind, 1) =~= inv);
}

/// Healing never takes the active member past its maximum hit points, never
/// lowers hit points that were within it, and leaves the battle showing the
/// healed hit points.
pub proof fn law_heal_within_max(o: AppState, n: AppState, amount: u16)
    requires
        healed(o, n, amount),
        o.active_spec() is Some,
    ensures
        n.active_spec() matches Some(m) && {
            let before = o.active_spec()->0;
            &&& m.hp <= member_max_hp(before)
            &&& before.hp <= member_max_hp(before) ==> before.hp <= m.hp
            &&& m == (PartyMember { hp: m.hp, ..before })
            &&& o.battle is Some ==> (n.battle matches Some(b) && b.player_hp == m.hp)
        },
{
    let m = o.active_spec()->0;
    let hp = min_u16(if m.hp + amount > u16::MAX { u16::MAX } else { (m.hp + amount) as u16 }, member_max_hp(m));
    let mid = choose|mid: AppState| member_hp_set(o, mid, hp) && #[trigger] battle_synced(mid, n);
    assert(mid.active_spec() == Some(PartyMember { hp, ..m }));
    assert(n.party == mid.party);
}

} // verus!
