//! Scenario events, defeat counts and pickups: what stepping on a tile or
//! beating a species sets off.
use vstd::prelude::*;
use crate::poketui::reducer::{message_pushed, push_message};
use crate::poketui::scenario::{ScenarioEvent, ScenarioTrigger};
use crate::poketui::state::AppState;
use crate::text::{ascii_lowercase, str_trim, string_views, to_ascii_lower, trim};

verus! {

/// A species name as events and counts know it: trimmed, in ASCII lower
/// case.
pub open spec fn species_key(name: Seq<char>) -> Seq<char> {
    ascii_lowercase(trim(name))
}

pub fn normalize_species(name: &str) -> (r: String)
    ensures
        r@ == species_key(name@),
{
    to_ascii_lower(str_trim(name))
}

/// The message on show and the messages waiting behind it.
pub type Inbox = (Option<Seq<char>>, Seq<Seq<char>>);

pub open spec fn inbox(s: AppState) -> Inbox {
    (
        match s.message {
            Some(m) => Some(m@),
            None => None,
        },
        string_views(s.message_queue@),
    )
}

/// The inbox after showing `msg`: an empty message is dropped; with nothing
/// on show it is shown; otherwise it waits at the back.
pub open spec fn inbox_push(b: Inbox, msg: Seq<char>) -> Inbox {
    if msg.len() == 0 {
        b
    } else if b.0 is None {
        (Some(msg), b.1)
    } else {
        (b.0, b.1.push(msg))
    }
}

/// The ids of the events that have fired.
pub open spec fn fired_set(s: AppState) -> Set<Seq<char>> {
    Set::new(|n: Seq<char>| s.fired_event_ids.has(n))
}

/// What an event does when its trigger is met: a `once` event that has
/// fired does nothing; otherwise its message is shown, and a `once` event
/// is marked as fired.
pub open spec fn fire(acc: (Inbox, Set<Seq<char>>), ev: ScenarioEvent, met: bool) -> (Inbox, Set<Seq<char>>) {
    if !met || (ev.once && acc.1.contains(ev.id@)) {
        acc
    } else {
        (inbox_push(acc.0, ev.message@), if ev.once { acc.1.insert(ev.id@) } else { acc.1 })
    }
}

pub open spec fn on_tile(ev: ScenarioEvent, x: u16, y: u16) -> bool {
    ev.trigger matches ScenarioTrigger::OnEnterTile { x: tx, y: ty } && tx == x && ty == y
}

/// The events of `evs` in order, each fired when it is triggered by
/// entering `(x, y)`.
pub open spec fn fire_on_tile(acc: (Inbox, Set<Seq<char>>), evs: Seq<ScenarioEvent>, x: u16, y: u16) -> (Inbox, Set<Seq<char>>)
    decreases evs.len(),
{
    if evs.len() == 0 {
        acc
    } else {
        fire(fire_on_tile(acc, evs.drop_last(), x, y), evs.last(), on_tile(evs.last(), x, y))
    }
}

pub open spec fn on_defeat(ev: ScenarioEvent, key: Seq<char>, count: u16) -> bool {
    ev.trigger matches ScenarioTrigger::OnDefeat { species, count: req } && species_key(species@) == key && count >= req
}

/// The events of `evs` in order, each fired when `count` defeats of the
/// species `key` meet it.
pub open spec fn fire_on_defeat(acc: (Inbox, Set<Seq<char>>), evs: Seq<ScenarioEvent>, key: Seq<char>, count: u16) -> (Inbox, Set<Seq<char>>)
    decreases evs.len(),
{
    if evs.len() == 0 {
        acc
    } else {
        fire(fire_on_defeat(acc, evs.drop_last(), key, count), evs.last(), on_defeat(evs.last(), key, count))
    }
}

/// The events of the scenario being played; none without one.
pub open spec fn events_of(s: AppState) -> Seq<ScenarioEvent> {
    match s.scenario {
        Some(sc) => sc.manifest.events@,
        None => seq![],
    }
}

/// `n` is `o` but for its messages and fired events.
pub open spec fn only_events_changed(o: AppState, n: AppState) -> bool {
    n == (AppState { message: n.message, message_queue: n.message_queue, fired_event_ids: n.fired_event_ids, ..o })
}

proof fn lemma_push_inbox(o: AppState, n: AppState, msg: Seq<char>)
    requires
        message_pushed(o, n, msg),
    ensures
        inbox(n) == inbox_push(inbox(o), msg),
        fired_set(n) == fired_set(o),
        only_events_changed(o, n),
{
    if msg.len() > 0 && o.message is Some {
        assert(string_views(n.message_queue@) =~= string_views(o.message_queue@).push(msg));
    }
    assert(fired_set(n) =~= fired_set(o));
}

/// Fires one event whose trigger was met.
fn fire_event(state: &mut AppState, ev: &ScenarioEvent)
    ensures
        (inbox(*final(state)), fired_set(*final(state))) == fire((inbox(*old(state)), fired_set(*old(state))), *ev, true),
        only_events_changed(*old(state), *final(state)),
{
    if ev.once && state.fired_event_ids.contains(ev.id.as_str()) {
        return;
    }
    let ghost s0 = *state;
    push_message(state, ev.message.clone());
    proof {
        lemma_push_inbox(s0, *state, ev.message@);
    }
    if ev.once {
        let ghost s1 = *state;
        state.fired_event_ids.insert(ev.id.clone());
        assert(fired_set(*state) =~= fired_set(s1).insert(ev.id@));
        assert(inbox(*state) == inbox(s1));
    }
}

/// Shows the messages of the events set off by entering `(x, y)`.
pub fn trigger_tile_events(state: &mut AppState, x: u16, y: u16)
    ensures
        (inbox(*final(state)), fired_set(*final(state))) == fire_on_tile((inbox(*old(state)), fired_set(*old(state))), events_of(*old(state)), x, y),
        only_events_changed(*old(state), *final(state)),
{
    let n = match &state.scenario {
        Some(sc) => sc.manifest.events.len(),
        None => 0,
    };
    let ghost evs = events_of(*old(state));
    let mut i: usize = 0;
    while i < n
        invariant
            i <= n,
            n == evs.len(),
            evs == events_of(*old(state)),
            state.scenario == old(state).scenario,
            only_events_changed(*old(state), *state),
            (inbox(*state), fired_set(*state)) == fire_on_tile((inbox(*old(state)), fired_set(*old(state))), evs.take(i as int), x, y),
        decreases n - i,
    {
        assert(evs.take(i + 1).drop_last() =~= evs.take(i as int));
        let ev = match &state.scenario {
            Some(sc) => sc.manifest.events[i].clone(),
            None => {
                assert(false);
                return;
            },
        };
        assert(ev == evs[i as int]);
        let hit = match &ev.trigger {
            ScenarioTrigger::OnEnterTile { x: tx, y: ty } => *tx == x && *ty == y,
            ScenarioTrigger::OnDefeat { .. } => false,
        };
        if hit {
            fire_event(state, &ev);
        }
        i = i + 1;
    }
    assert(evs.take(n as int) =~= evs);
}

/// Shows the messages of the events set off by `count` defeats of the
/// species `key`.
pub fn trigger_defeat_events(state: &mut AppState, key: &str)
    ensures
        (inbox(*final(state)), fired_set(*final(state))) == fire_on_defeat(
            (inbox(*old(state)), fired_set(*old(state))),
            events_of(*old(state)),
            key@,
            match old(state).defeat_counts.get_spec(key@) {
                Some(c) => c,
                None => 0,
            },
        ),
        only_events_changed(*old(state), *final(state)),
{
    let count: u16 = match state.defeat_counts.get(key) {
        Some(c) => *c,
        None => 0,
    };
    let n = match &state.scenario {
        Some(sc) => sc.manifest.events.len(),
        None => 0,
    };
    let ghost evs = events_of(*old(state));
    let mut i: usize = 0;
    while i < n
        invariant
            i <= n,
            n == evs.len(),
            evs == events_of(*old(state)),
            state.scenario == old(state).scenario,
            only_events_changed(*old(state), *state),
            (inbox(*state), fired_set(*state)) == fire_on_defeat((inbox(*old(state)), fired_set(*old(state))), evs.take(i as int), key@, count),
        decreases n - i,
    {
        assert(evs.take(i + 1).drop_last() =~= evs.take(i as int));
        let ev = match &state.scenario {
            Some(sc) => sc.manifest.events[i].clone(),
            None => {
                assert(false);
                return;
            },
        };
        assert(ev == evs[i as int]);
        let hit = match &ev.trigger {
            ScenarioTrigger::OnDefeat { species, count: req } => {
                let k = normalize_species(species.as_str());
                crate::text::str_eq(k.as_str(), key) && count >= *req
            },
            ScenarioTrigger::OnEnterTile { .. } => false,
        };
        if hit {
            fire_event(state, &ev);
        }
        i = i + 1;
    }
    assert(evs.take(n as int) =~= evs);
}

/// One more defeat of a species: its count, saturating at the top.
pub open spec fn bumped(c: Option<u16>) -> u16 {
    match c {
        Some(v) => if v == u16::MAX { v } else { (v + 1) as u16 },
        None => 1,
    }
}

/// What a defeat of `enemy_name`'s species does: its count goes up by
/// one (saturating), and the events that count meets are set off.
pub open spec fn defeat_recorded(o: AppState, n: AppState, enemy_name: Seq<char>) -> bool {
        ({
            let key = species_key(enemy_name);
            let c = bumped(o.defeat_counts.get_spec(key));
            &&& forall|k: Seq<char>|
                #[trigger] n.defeat_counts.get_spec(k) == if k == key {
                    Some(c)
                } else {
                    o.defeat_counts.get_spec(k)
                }
            &&& (inbox(n), fired_set(n)) == fire_on_defeat(
                (inbox(o), fired_set(o)),
                events_of(o),
                key,
                c,
            )
            &&& n == (AppState {
                message: n.message,
                message_queue: n.message_queue,
                fired_event_ids: n.fired_event_ids,
                defeat_counts: n.defeat_counts,
                ..o
            })
        })
}

pub fn record_defeat(state: &mut AppState, enemy_name: &str)
    ensures
        defeat_recorded(*old(state), *final(state), enemy_name@),
{
    let key = normalize_species(enemy_name);
    let c: u16 = match state.defeat_counts.get(key.as_str()) {
        Some(v) => v.saturating_add(1),
        None => 1,
    };
    let ghost s0 = *state;
    state.defeat_counts.insert(key.clone(), c);
    assert(fired_set(*state) =~= fired_set(s0));
    assert(inbox(*state) == inbox(s0));
    assert(events_of(*state) == events_of(s0));
    trigger_defeat_events(state, key.as_str());
}

/// Whether a pickup lies at `(x, y)`.
pub open spec fn lies_at(x: u16, y: u16) -> spec_fn(crate::poketui::state::Pickup) -> bool {
    |p: crate::poketui::state::Pickup| p.x == x && p.y == y
}

/// The message for finding `qty` items of `kind`.
pub open spec fn found_message(kind: crate::poketui::state::ItemKind, qty: u16) -> Seq<char> {
    "Found "@ + crate::poketui::state::item_label(kind) + " x"@ + crate::text::dec(qty as nat) + "!"@
}

/// What picking up at `(x, y)` does: the first item lying there leaves
/// the map, goes into the bag, and its finding is shown; with none there,
/// nothing happens.
pub open spec fn pickup_collected(o: AppState, n: AppState, x: u16, y: u16) -> bool {
        match crate::seqs::first_where(o.pickups@, lies_at(x, y)) {
            Some(i) => {
                let p = o.pickups@[i];
                &&& n.pickups@ == o.pickups@.remove(i)
                &&& exists|mid: AppState| {
                    &&& mid == (AppState { pickups: n.pickups, inventory: mid.inventory, ..o })
                    &&& #[trigger] message_pushed(mid, n, found_message(p.kind, p.qty))
                    &&& match crate::poketui::reducer::stack_of(o.inventory@, p.kind) {
                        Some(k) => mid.inventory@ == o.inventory@.update(k, crate::poketui::state::ItemStack {
                            kind: p.kind,
                            qty: if o.inventory@[k].qty + p.qty > u16::MAX { u16::MAX } else { (o.inventory@[k].qty + p.qty) as u16 },
                        }),
                        None => mid.inventory@ == o.inventory@.push(crate::poketui::state::ItemStack { kind: p.kind, qty: p.qty }),
                    }
                }
            },
            None => n == o,
        }
}

pub fn collect_pickup(state: &mut AppState, x: u16, y: u16)
    ensures
        pickup_collected(*old(state), *final(state), x, y),
{
    let ghost pred = lies_at(x, y);
    let mut i: usize = 0;
    while i < state.pickups.len()
        invariant
            i <= state.pickups@.len(),
            *state == *old(state),
            pred == lies_at(x, y),
            forall|j: int| 0 <= j < i ==> !pred(#[trigger] state.pickups@[j]),
        decreases state.pickups.len() - i,
    {
        if state.pickups[i].x == x && state.pickups[i].y == y {
            proof {
                crate::seqs::lemma_first_where_at(state.pickups@, pred, i as int);
            }
            let p = state.pickups.remove(i);
            crate::poketui::reducer::add_item_to_inventory(&mut state.inventory, p.kind, p.qty);
            let ghost mid = *state;
            let mut msg = crate::text::owned("Found ");
            crate::text::push_str(&mut msg, p.kind.label());
            crate::text::push_str(&mut msg, " x");
            let q = crate::text::dec_u64(p.qty as u64);
            crate::text::push_str(&mut msg, q.as_str());
            crate::text::push_str(&mut msg, "!");
            push_message(state, msg);
            assert(message_pushed(mid, *state, found_message(p.kind, p.qty)));
            return;
        }
        i = i + 1;
    }
    proof {
        crate::seqs::lemma_first_where_at(state.pickups@, pred, i as int);
    }
}

/// Draws an item from `pool` by weight; none when the weights add up to
/// nothing (and then the generator is not stepped).
pub fn roll_pickup_from_pool(state: &mut AppState, pool: &Vec<crate::poketui::scenario::ItemDrop>) -> (d: Option<crate::poketui::scenario::ItemDrop>)
    requires
        crate::poketui::battle::total_weight(pool@) <= u32::MAX,
    ensures
        crate::poketui::battle::total_weight(pool@) == 0 ==> d is None && *final(state) == *old(state),
        crate::poketui::battle::total_weight(pool@) > 0 ==> {
            let roll = crate::poketui::battle::rng_out(old(state).rng_seed) % (crate::poketui::battle::total_weight(pool@) as u32);
            &&& crate::poketui::battle::pick_by_weight(pool@, roll as int) matches Some(i) && 0 <= i < pool@.len() && d == Some(pool@[i])
            &&& *final(state) == (AppState { rng_seed: crate::poketui::battle::rng_step(old(state).rng_seed), ..*old(state) })
        },
{
    let total = match crate::poketui::battle::pool_weight(pool) {
        Some(t) => t,
        None => return None,
    };
    if total == 0 {
        return None;
    }
    let roll = crate::poketui::reducer::next_rand(state) % total;
    Some(crate::poketui::battle::pick_drop(pool, roll))
}

/// Whether a pickup may lie on a tile: grass, path or sand.
pub open spec fn open_ground(t: crate::poketui::map::Tile) -> bool {
    t is Grass || t is Path || t is Sand
}

/// What scattering pickups keeps: the pickups already there come first,
/// and every new one lies on open ground of the map, off the start
/// position and apart from every other pickup, with an item of the pool
/// (at least one of it); no more are added than the scenario asks for.
pub open spec fn pickups_scattered(o: AppState, n: AppState, count: int, pool: Seq<crate::poketui::scenario::ItemDrop>, start: (u16, u16)) -> bool {
    &&& n.pickups@.len() >= o.pickups@.len()
    &&& n.pickups@.subrange(0, o.pickups@.len() as int) == o.pickups@
    &&& (n.pickups@.len() > o.pickups@.len() ==> n.pickups@.len() <= count)
    &&& forall|k: int|
        o.pickups@.len() <= k < n.pickups@.len() ==> {
            let p = #[trigger] n.pickups@[k];
            &&& p.x < o.map.width && p.y < o.map.height
            &&& open_ground(o.map.tile_at(p.x as int, p.y as int))
            &&& (p.x, p.y) != start
            &&& forall|j: int| 0 <= j < k ==> (n.pickups@[j].x, n.pickups@[j].y) != (p.x, p.y)
            &&& exists|e: int| 0 <= e < pool.len() && pool[e].kind == p.kind && p.qty == if pool[e].qty < 1 { 1 } else { pool[e].qty }
        }
    &&& n == (AppState { pickups: n.pickups, rng_seed: n.rng_seed, ..o })
}

/// Whether `(x, y)` is taken: the start position or a pickup's place.
fn occupied(state: &AppState, start: (u16, u16), x: u16, y: u16) -> (b: bool)
    ensures
        b == ((x, y) == start || exists|j: int| 0 <= j < state.pickups@.len() && (#[trigger] state.pickups@[j].x, state.pickups@[j].y) == (x, y)),
{
    if x == start.0 && y == start.1 {
        return true;
    }
    let mut j: usize = 0;
    while j < state.pickups.len()
        invariant
            j <= state.pickups@.len(),
            forall|k: int| 0 <= k < j ==> (#[trigger] state.pickups@[k].x, state.pickups@[k].y) != (x, y),
        decreases state.pickups.len() - j,
    {
        if state.pickups[j].x == x && state.pickups[j].y == y {
            assert((state.pickups@[j as int].x, state.pickups@[j as int].y) == (x, y));
            return true;
        }
        j = j + 1;
    }
    false
}

/// Whether the scenario's pickups can be scattered: on a map of some size,
/// from a pool whose weights add up within 32 bits.
pub open spec fn can_scatter(s: AppState) -> bool {
    s.scenario matches Some(sc) ==> (sc.manifest.random_pickups.count > 0 && sc.manifest.random_pickups.pool@.len() > 0 ==> {
        &&& s.map.width > 0 && s.map.height > 0
        &&& crate::poketui::battle::total_weight(sc.manifest.random_pickups.pool@) <= u32::MAX
    })
}

/// Scatters the scenario's random pickups over open ground, drawing places
/// and items from the generator, with at most 200 draws per pickup asked
/// for.
#[verifier::spinoff_prover]
#[verifier::rlimit(60)]
pub fn spawn_pickups(state: &mut AppState)
    requires
        can_scatter(*old(state)),
    ensures
        match old(state).scenario {
            Some(sc) => {
                let spec_ = sc.manifest.random_pickups;
                if spec_.count == 0 || spec_.pool@.len() == 0 {
                    *final(state) == *old(state)
                } else {
                    exists|start: (u16, u16)| old(state).map.start_of(start) && #[trigger] pickups_scattered(*old(state), *final(state), spec_.count as int, spec_.pool@, start)
                }
            },
            None => *final(state) == *old(state),
        },
{
    let (count, pool) = match &state.scenario {
        Some(sc) => (sc.manifest.random_pickups.count as usize, sc.manifest.random_pickups.pool.clone()),
        None => return,
    };
    if count == 0 || pool.len() == 0 {
        return;
    }
    let start = state.map.start_pos();
    let ghost o = *old(state);
    let ghost pool0 = pool@;
    assert(pool@ == pool0);
    let mut attempts: usize = 0;
    assert(o.pickups@.subrange(0, o.pickups@.len() as int) =~= o.pickups@);
    while state.pickups.len() < count && attempts < count * 200
        invariant
            o == *old(state),
            pool@ == pool0,
            o.scenario matches Some(sc) && sc.manifest.random_pickups.pool@ == pool0 && sc.manifest.random_pickups.count as usize == count,
            count > 0,
            count <= u16::MAX,
            state.map.width > 0 && state.map.height > 0,
            crate::poketui::battle::total_weight(pool@) <= u32::MAX,
            o.map.start_of(start),
            pickups_scattered(o, *state, count as int, pool0, start),
        decreases count * 200 - attempts,
    {
        attempts = attempts + 1;
        let ghost s0 = *state;
        let rx = crate::poketui::reducer::next_rand(state);
        let x = (rx as u16) % state.map.width;
        let ghost s1 = *state;
        let ry = crate::poketui::reducer::next_rand(state);
        let y = (ry as u16) % state.map.height;
        proof {
            lemma_scatter_reseed(o, s0, s1, count as int, pool0, start);
            lemma_scatter_reseed(o, s1, *state, count as int, pool0, start);
        }
        if occupied(state, start, x, y) {
            continue;
        }
        let t = state.map.tile(x, y);
        if !(t == crate::poketui::map::Tile::Grass || t == crate::poketui::map::Tile::Path || t == crate::poketui::map::Tile::Sand) {
            continue;
        }
        let ghost before = *state;
        assert((x, y) != start);
        assert(forall|j: int| 0 <= j < before.pickups@.len() ==> (#[trigger] before.pickups@[j].x, before.pickups@[j].y) != (x, y));
        match roll_pickup_from_pool(state, &pool) {
            Some(drop) => {
                let ghost drawn = *state;
                proof {
                    lemma_scatter_reseed(o, before, drawn, count as int, pool0, start);
                }
                let ghost i = choose|i: int| crate::poketui::battle::pick_by_weight(pool0, (crate::poketui::battle::rng_out(before.rng_seed) % (crate::poketui::battle::total_weight(pool0) as u32)) as int) == Some(i) && 0 <= i < pool0.len() && drop == pool0[i];
                let qty = if drop.qty < 1 { 1 } else { drop.qty };
                let p = crate::poketui::state::Pickup { x, y, kind: drop.kind, qty };
                state.pickups.push(p);
                proof {
                    lemma_scatter_push(o, drawn, *state, count as int, pool0, start, p, i);
                }
            },
            None => {},
        }
    }
}

proof fn lemma_scatter_reseed(o: AppState, a: AppState, b: AppState, count: int, pool: Seq<crate::poketui::scenario::ItemDrop>, start: (u16, u16))
    requires
        pickups_scattered(o, a, count, pool, start),
        b == (AppState { rng_seed: b.rng_seed, ..a }),
    ensures
        pickups_scattered(o, b, count, pool, start),
{
}

proof fn lemma_scatter_push(
    o: AppState,
    a: AppState,
    b: AppState,
    count: int,
    pool: Seq<crate::poketui::scenario::ItemDrop>,
    start: (u16, u16),
    p: crate::poketui::state::Pickup,
    i: int,
)
    requires
        pickups_scattered(o, a, count, pool, start),
        a.pickups@.len() < count,
        p.x < o.map.width && p.y < o.map.height,
        open_ground(o.map.tile_at(p.x as int, p.y as int)),
        (p.x, p.y) != start,
        forall|j: int| 0 <= j < a.pickups@.len() ==> (#[trigger] a.pickups@[j].x, a.pickups@[j].y) != (p.x, p.y),
        0 <= i < pool.len(),
        pool[i].kind == p.kind,
        p.qty == if pool[i].qty < 1 { 1 } else { pool[i].qty },
        b.pickups@ == a.pickups@.push(p),
        b == (AppState { pickups: b.pickups, ..a }),
    ensures
        pickups_scattered(o, b, count, pool, start),
{
    assert(b.pickups@.subrange(0, o.pickups@.len() as int) =~= a.pickups@.subrange(0, o.pickups@.len() as int));
    assert forall|k: int| o.pickups@.len() <= k < b.pickups@.len() implies {
        let q = #[trigger] b.pickups@[k];
        &&& q.x < o.map.width && q.y < o.map.height
        &&& open_ground(o.map.tile_at(q.x as int, q.y as int))
        &&& (q.x, q.y) != start
        &&& forall|j: int| 0 <= j < k ==> (b.pickups@[j].x, b.pickups@[j].y) != (q.x, q.y)
        &&& exists|e: int| 0 <= e < pool.len() && pool[e].kind == q.kind && q.qty == if pool[e].qty < 1 { 1 } else { pool[e].qty }
    } by {
        if k < a.pickups@.len() {
            assert(b.pickups@[k] == a.pickups@[k]);
            assert forall|j: int| 0 <= j < k implies (b.pickups@[j].x, b.pickups@[j].y) != (b.pickups@[k].x, b.pickups@[k].y) by {
                assert(b.pickups@[j] == a.pickups@[j]);
            }
        } else {
            assert forall|j: int| 0 <= j < k implies (b.pickups@[j].x, b.pickups@[j].y) != (b.pickups@[k].x, b.pickups@[k].y) by {
                assert(b.pickups@[j] == a.pickups@[j]);
            }
        }
    }
}

/// Pickups scattered when none lie on the map; otherwise nothing.
pub open spec fn spawn_or_keep(o: AppState, n: AppState) -> bool {
    &&& o.pickups@.len() > 0 ==> n == o
    &&& o.pickups@.len() == 0 ==> match o.scenario {
        Some(sc) => {
            let spec_ = sc.manifest.random_pickups;
            if spec_.count == 0 || spec_.pool@.len() == 0 {
                n == o
            } else {
                exists|start: (u16, u16)| o.map.start_of(start) && #[trigger] pickups_scattered(o, n, spec_.count as int, spec_.pool@, start)
            }
        },
        None => n == o,
    }
}

/// Scatters pickups when none lie on the map.
pub fn ensure_pickups(state: &mut AppState)
    requires
        can_scatter(*old(state)),
    ensures
        spawn_or_keep(*old(state), *final(state)),
{
    if state.pickups.len() == 0 {
        spawn_pickups(state);
    }
}

/// Whether an entry names the species of `target`, as keys compare.
pub open spec fn same_species(target: Seq<char>) -> spec_fn(crate::poketui::scenario::SpeciesAbility) -> bool {
    |e: crate::poketui::scenario::SpeciesAbility| species_key(e.species@) == species_key(target)
}

/// The ability the first entry for `target`'s species gives.
pub open spec fn species_ability(list: Seq<crate::poketui::scenario::SpeciesAbility>, target: Seq<char>) -> Option<Seq<char>> {
    match crate::seqs::first_where(list, same_species(target)) {
        Some(i) => Some(list[i].ability_id@),
        None => None,
    }
}

pub fn ability_id_from_list(list: &Vec<crate::poketui::scenario::SpeciesAbility>, target: &str) -> (r: Option<String>)
    ensures
        match species_ability(list@, target@) {
            Some(a) => r matches Some(x) && x@ == a,
            None => r is None,
        },
{
    let key = normalize_species(target);
    let ghost p = same_species(target@);
    let mut i: usize = 0;
    while i < list.len()
        invariant
            i <= list@.len(),
            p == same_species(target@),
            key@ == species_key(target@),
            forall|j: int| 0 <= j < i ==> !p(#[trigger] list@[j]),
        decreases list.len() - i,
    {
        let k = normalize_species(list[i].species.as_str());
        if crate::text::str_eq(k.as_str(), key.as_str()) {
            proof {
                crate::seqs::lemma_first_where_at(list@, p, i as int);
            }
            return Some(list[i].ability_id.clone());
        }
        i = i + 1;
    }
    proof {
        crate::seqs::lemma_first_where_at(list@, p, i as int);
    }
    None
}

/// The ability a species starts with in the scenario being played.
pub open spec fn ability_for(s: AppState, name: Seq<char>) -> Option<Seq<char>> {
    match s.scenario {
        Some(sc) => species_ability(sc.manifest.species_abilities@, name),
        None => None,
    }
}

pub fn ability_id_for_species(state: &AppState, name: &str) -> (r: Option<String>)
    ensures
        match ability_for(*state, name@) {
            Some(a) => r matches Some(x) && x@ == a,
            None => r is None,
        },
{
    match &state.scenario {
        Some(sc) => ability_id_from_list(&sc.manifest.species_abilities, name),
        None => None,
    }
}

/// Whether an ability has the id `id`.
pub open spec fn has_id(id: Seq<char>) -> spec_fn(crate::poketui::scenario::AbilitySpec) -> bool {
    |a: crate::poketui::scenario::AbilitySpec| a.id@ == id
}

/// The ability of the active member, as the scenario describes it.
pub open spec fn active_ability(s: AppState) -> Option<crate::poketui::scenario::AbilitySpec> {
    match (s.active_spec(), s.scenario) {
        (Some(m), Some(sc)) => match m.ability_id {
            Some(id) => match crate::seqs::first_where(sc.manifest.abilities@, has_id(id@)) {
                Some(i) => Some(sc.manifest.abilities@[i]),
                None => None,
            },
            None => None,
        },
        _ => None,
    }
}

pub fn active_ability_spec(state: &AppState) -> (r: Option<crate::poketui::scenario::AbilitySpec>)
    ensures
        r == active_ability(*state),
{
    let m = match state.active_member() {
        Some(m) => m,
        None => return None,
    };
    let id: String = match &m.ability_id {
        Some(x) => x.clone(),
        None => return None,
    };
    assert(m.ability_id == Some(id));
    let sc = match &state.scenario {
        Some(sc) => sc,
        None => return None,
    };
    assert(state.scenario == Some(*sc));
    let ghost p = has_id(id@);
    let mut i: usize = 0;
    while i < sc.manifest.abilities.len()
        invariant
            i <= sc.manifest.abilities@.len(),
            p == has_id(id@),
            state.scenario == Some(*sc),
            state.active_spec() == Some(*m),
            m.ability_id == Some(id),
            forall|j: int| 0 <= j < i ==> !p(#[trigger] sc.manifest.abilities@[j]),
        decreases sc.manifest.abilities.len() - i,
    {
        if crate::text::str_eq(sc.manifest.abilities[i].id.as_str(), id.as_str()) {
            proof {
                crate::seqs::lemma_first_where_at(sc.manifest.abilities@, p, i as int);
            }
            let a = sc.manifest.abilities[i].clone();
            assert(a == sc.manifest.abilities@[i as int]);
            assert(state.scenario == Some(*sc));
            assert(state.active_spec() == Some(*m));
            assert(crate::seqs::first_where(sc.manifest.abilities@, has_id(id@)) == Some(i as int));
            return Some(a);
        }
        i = i + 1;
    }
    proof {
        crate::seqs::lemma_first_where_at(sc.manifest.abilities@, p, i as int);
    }
    None
}

} // verus!
