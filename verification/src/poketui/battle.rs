//! The numbers of a battle: the random generator, damage, guards,
//! experience and levels, enemy levels, pickups drawn by weight, and the
//! display form of species names.
use vstd::prelude::*;
use crate::poketui::scenario::ItemDrop;
use crate::poketui::state::{level_exp, MAX_LEVEL};
use crate::text::{ascii_upper, chars_of, joined, lemma_pieces_nonempty, pieces, upper_char};

verus! {

/// One step of the game's 64-bit linear congruential generator.
pub open spec fn rng_step(seed: u64) -> u64 {
    seed.wrapping_mul(6364136223846793005).wrapping_add(1)
}

/// The number drawn when the generator steps from `seed`: the high half of
/// the new state.
pub open spec fn rng_out(seed: u64) -> u32 {
    (rng_step(seed) >> 32u64) as u32
}

pub fn step_seed(seed: &mut u64) -> (r: u32)
    ensures
        *final(seed) == rng_step(*old(seed)),
        r == rng_out(*old(seed)),
{
    *seed = seed.wrapping_mul(6364136223846793005).wrapping_add(1);
    (*seed >> 32u64) as u32
}

/// The power of every attack.
pub const MOVE_POWER: u32 = 40;

pub open spec fn at_least_one(v: int) -> int {
    if v < 1 {
        1
    } else {
        v
    }
}

/// Damage before the random spread: the usual formula at power 40, with
/// level, attack and defense taken as at least 1.
pub open spec fn damage_base(level: u8, attack: u16, defense: u16) -> int {
    let l = at_least_one(level as int);
    let a = at_least_one(attack as int);
    let d = at_least_one(defense as int);
    (((2 * l / 5 + 2) * 40 * a) / d) / 50 + 2
}

/// Damage with the spread drawn from `roll`: 85 to 100 percent of the base,
/// at least 1, cut to 16 bits.
pub open spec fn damage_value(level: u8, attack: u16, defense: u16, roll: u32) -> u16 {
    at_least_one(damage_base(level, attack, defense) * (85 + (roll % 16) as int) / 100) as u16
}

pub fn damage_with_roll(level: u8, attack: u16, defense: u16, roll: u32) -> (d: u16)
    ensures
        d == damage_value(level, attack, defense, roll),
{
    let l: u32 = if level < 1 { 1 } else { level as u32 };
    let a: u32 = if attack < 1 { 1 } else { attack as u32 };
    let df: u32 = if defense < 1 { 1 } else { defense as u32 };
    assert((2 * l / 5 + 2) * 40 * a <= 104 * 40 * 65535) by (nonlinear_arith)
        requires
            1 <= l <= 255,
            1 <= a <= 65535,
    ;
    let scaled = (2 * l / 5 + 2) * MOVE_POWER * a;
    assert(scaled / df <= scaled) by (nonlinear_arith)
        requires
            df >= 1,
            scaled >= 0,
    ;
    let base = (scaled / df) / 50 + 2;
    let variance = 85 + (roll % 16);
    assert(base * variance <= 6000000 * 100) by (nonlinear_arith)
        requires
            base <= 6000000,
            variance <= 100,
    ;
    let damage = base * variance / 100;
    let kept: u32 = if damage < 1 { 1 } else { damage };
    kept as u16
}

/// `damage` less `pct` percent of it, the reduction cut to 16 bits, and
/// never below zero.
pub open spec fn guarded(damage: u16, pct: u8) -> u16 {
    let reduction = ((damage as int * pct as int) / 100) as u16;
    if damage >= reduction {
        (damage - reduction) as u16
    } else {
        0
    }
}

pub fn guard_damage(damage: u16, pct: u8) -> (d: u16)
    ensures
        d == guarded(damage, pct),
{
    assert(damage as u32 * pct as u32 <= 65535 * 255) by (nonlinear_arith)
        requires
            damage <= 65535,
            pct <= 255,
    ;
    let reduction = (damage as u32 * pct as u32) / 100;
    damage.saturating_sub(reduction as u16)
}

/// The level reached from `level` with `exp` experience: up while below the
/// highest level and the next level's threshold is met.
pub open spec fn level_after(level: u8, exp: u32) -> u8
    decreases 100 - level,
{
    if level < MAX_LEVEL && exp >= level_exp((level + 1) as u8) {
        level_after((level + 1) as u8, exp)
    } else {
        level
    }
}

pub proof fn lemma_level_after_grows(level: u8, exp: u32)
    ensures
        level_after(level, exp) >= level,
    decreases 100 - level,
{
    if level < MAX_LEVEL && exp >= level_exp((level + 1) as u8) {
        lemma_level_after_grows((level + 1) as u8, exp);
    }
}

pub fn raise_level(level: u8, exp: u32) -> (l: u8)
    ensures
        l == level_after(level, exp),
        l >= level,
{
    proof {
        lemma_level_after_grows(level, exp);
    }
    let mut l = level;
    while l < MAX_LEVEL && exp >= crate::poketui::state::exp_for_level(l + 1)
        invariant
            level_after(l, exp) == level_after(level, exp),
        decreases 100 - l,
    {
        l = l + 1;
    }
    l
}

/// Experience for beating an enemy of `enemy_level` with base experience
/// `base`: a seventh of their product, at least 1.
pub open spec fn exp_gain(base: u16, enemy_level: u8) -> u32 {
    at_least_one((base as int * enemy_level as int) / 7) as u32
}

pub fn exp_reward(base: u16, enemy_level: u8) -> (g: u32)
    ensures
        g == exp_gain(base, enemy_level),
{
    assert(base as u32 * enemy_level as u32 <= 65535 * 255) by (nonlinear_arith)
        requires
            base <= 65535,
            enemy_level <= 255,
    ;
    let g = (base as u32 * enemy_level as u32) / 7;
    if g < 1 { 1 } else { g }
}

pub open spec fn clamp_int(v: int, lo: int, hi: int) -> int {
    if v < lo {
        lo
    } else if v > hi {
        hi
    } else {
        v
    }
}

/// A wild enemy's level: the player's level (at least 2) moved by -2 to +2
/// as drawn, kept within 2 and the highest level.
pub open spec fn wild_level(player_level: u8, roll: u32) -> u8 {
    let base = if player_level < 2 { 2 } else { player_level as int };
    clamp_int(base + (roll % 5) as int - 2, 2, MAX_LEVEL as int) as u8
}

pub fn wild_level_for(player_level: u8, roll: u32) -> (l: u8)
    ensures
        l == wild_level(player_level, roll),
{
    let base: i16 = if player_level < 2 { 2 } else { player_level as i16 };
    let offset: i16 = (roll % 5) as i16 - 2;
    let level = base + offset;
    let kept: i16 = if level < 2 { 2 } else if level > 100 { 100 } else { level };
    kept as u8
}

/// The boss's level: three above the player's (at least 5), within 5 and
/// the highest level.
pub open spec fn boss_level_for(player_level: u8) -> u8 {
    let base = if player_level < 5 { 5 } else { player_level as int };
    clamp_int(base + 3, 5, MAX_LEVEL as int) as u8
}

pub fn boss_level_of(player_level: u8) -> (l: u8)
    ensures
        l == boss_level_for(player_level),
{
    let base: i16 = if player_level < 5 { 5 } else { player_level as i16 };
    let level = base + 3;
    let kept: i16 = if level < 5 { 5 } else if level > 100 { 100 } else { level };
    kept as u8
}

/// The sum of the weights of a pool.
pub open spec fn total_weight(pool: Seq<ItemDrop>) -> nat
    decreases pool.len(),
{
    if pool.len() == 0 {
        0
    } else {
        total_weight(pool.drop_last()) + pool.last().weight as nat
    }
}

/// The entry of `pool` that `roll` falls in, counting weights from the
/// front; past them all, none.
pub open spec fn pick_by_weight(pool: Seq<ItemDrop>, roll: int) -> Option<int>
    decreases pool.len(),
{
    if pool.len() == 0 {
        None
    } else if roll < pool[0].weight {
        Some(0)
    } else {
        match pick_by_weight(pool.drop_first(), roll - pool[0].weight) {
            Some(i) => Some(i + 1),
            None => None,
        }
    }
}

proof fn lemma_total_weight_front(pool: Seq<ItemDrop>)
    requires
        pool.len() > 0,
    ensures
        total_weight(pool) == pool[0].weight + total_weight(pool.drop_first()),
    decreases pool.len(),
{
    if pool.len() > 1 {
        lemma_total_weight_front(pool.drop_last());
        assert(pool.drop_last().drop_first() =~= pool.drop_first().drop_last());
        assert(pool.drop_first().last() == pool.last());
        assert(pool.drop_last()[0] == pool[0]);
        assert(total_weight(pool.drop_first()) == total_weight(pool.drop_first().drop_last()) + pool.drop_first().last().weight as nat);
    } else {
        assert(pool.drop_first().len() == 0);
        assert(pool.drop_last().len() == 0);
        assert(total_weight(pool.drop_first()) == 0);
        assert(total_weight(pool.drop_last()) == 0);
        assert(pool.last() == pool[0]);
    }
}

proof fn lemma_pick_found(pool: Seq<ItemDrop>, roll: int)
    requires
        0 <= roll < total_weight(pool),
    ensures
        pick_by_weight(pool, roll) matches Some(i) && 0 <= i < pool.len(),
    decreases pool.len(),
{
    lemma_total_weight_front(pool);
    if roll >= pool[0].weight {
        lemma_pick_found(pool.drop_first(), roll - pool[0].weight);
    }
}

proof fn lemma_total_weight_bound(pool: Seq<ItemDrop>)
    ensures
        total_weight(pool) <= pool.len() * 65535,
    decreases pool.len(),
{
    if pool.len() > 0 {
        lemma_total_weight_bound(pool.drop_last());
    }
}

/// The total weight of a pool, in 32 bits; `None` past them.
pub fn pool_weight(pool: &Vec<ItemDrop>) -> (t: Option<u32>)
    ensures
        match t {
            Some(w) => w == total_weight(pool@),
            None => total_weight(pool@) > u32::MAX,
        },
{
    let mut total: u64 = 0;
    let mut i: usize = 0;
    while i < pool.len()
        invariant
            i <= pool@.len(),
            total == total_weight(pool@.take(i as int)),
            total <= u32::MAX,
        decreases pool.len() - i,
    {
        assert(pool@.take(i + 1).drop_last() =~= pool@.take(i as int));
        total = total + pool[i].weight as u64;
        if total > u32::MAX as u64 {
            proof {
                lemma_weight_prefix(pool@, i + 1);
            }
            return None;
        }
        i = i + 1;
    }
    assert(pool@.take(pool@.len() as int) =~= pool@);
    Some(total as u32)
}

proof fn lemma_weight_prefix(pool: Seq<ItemDrop>, k: int)
    requires
        0 <= k <= pool.len(),
    ensures
        total_weight(pool.take(k)) <= total_weight(pool),
    decreases pool.len() - k,
{
    if k < pool.len() {
        lemma_weight_prefix(pool, k + 1);
        assert(pool.take(k + 1).drop_last() =~= pool.take(k));
    } else {
        assert(pool.take(k) =~= pool);
    }
}

/// The drop that `roll` falls in, for a roll below the total weight.
pub fn pick_drop(pool: &Vec<ItemDrop>, roll: u32) -> (d: ItemDrop)
    requires
        roll < total_weight(pool@),
    ensures
        pick_by_weight(pool@, roll as int) matches Some(i) && 0 <= i < pool@.len() && d == pool@[i],
{
    let mut r = roll;
    let mut i: usize = 0;
    proof {
        lemma_pick_found(pool@, roll as int);
        assert(pool@.skip(0) =~= pool@);
    }
    while i < pool.len()
        invariant
            i <= pool@.len(),
            r < total_weight(pool@.skip(i as int)),
            match pick_by_weight(pool@, roll as int) {
                Some(k) => pick_by_weight(pool@.skip(i as int), r as int) == Some(k - i),
                None => false,
            },
        decreases pool.len() - i,
    {
        proof {
            lemma_total_weight_front(pool@.skip(i as int));
            assert(pool@.skip(i as int).drop_first() =~= pool@.skip(i + 1));
            assert(pool@.skip(i as int)[0] == pool@[i as int]);
        }
        let w = pool[i].weight as u32;
        if r < w {
            return pool[i];
        }
        r = r - w;
        i = i + 1;
    }
    proof {
        assert(pool@.skip(i as int).len() == 0);
    }
    pool[0]
}

/// A species name for display: its hyphen-separated words, each with an
/// upper-case first letter, joined by spaces.
pub open spec fn capitalized(word: Seq<char>) -> Seq<char> {
    seq![ascii_upper(word[0])] + word.drop_first()
}

/// The non-empty words among `parts`, capitalized.
pub open spec fn name_words(parts: Seq<Seq<char>>) -> Seq<Seq<char>>
    decreases parts.len(),
{
    if parts.len() == 0 {
        seq![]
    } else if parts.last().len() > 0 {
        name_words(parts.drop_last()).push(capitalized(parts.last()))
    } else {
        name_words(parts.drop_last())
    }
}

pub open spec fn display_name(name: Seq<char>) -> Seq<char> {
    joined(name_words(pieces(name, '-')), ' ')
}

/// Appends the capitalized word `s[lo..hi]`, after a space unless it is the
/// first word.
fn append_word(out: &mut String, words: usize, s: &Vec<char>, lo: usize, hi: usize)
    requires
        lo < hi <= s@.len(),
    ensures
        final(out)@ == if words == 0 {
            capitalized(s@.subrange(lo as int, hi as int))
        } else {
            old(out)@.push(' ') + capitalized(s@.subrange(lo as int, hi as int))
        },
{
    if words > 0 {
        crate::text::string_push(out, ' ');
    } else {
        *out = String::new();
    }
    let ghost pre = out@;
    crate::text::string_push(out, upper_char(s[lo]));
    let mut k = lo + 1;
    while k < hi
        invariant
            lo < k <= hi <= s@.len(),
            out@ == pre + capitalized(s@.subrange(lo as int, k as int)),
        decreases hi - k,
    {
        crate::text::string_push(out, s[k]);
        assert(capitalized(s@.subrange(lo as int, k + 1)) =~= capitalized(s@.subrange(lo as int, k as int)).push(s@[k as int]));
        k = k + 1;
    }
    assert(pre.len() == 0 ==> pre + capitalized(s@.subrange(lo as int, hi as int)) =~= capitalized(s@.subrange(lo as int, hi as int)));
}

pub fn format_name(name: &str) -> (r: String)
    ensures
        r@ == display_name(name@),
{
    let s = chars_of(name);
    let mut out = String::new();
    let mut words: usize = 0;
    let mut start: usize = 0;
    let mut i: usize = 0;
    proof {
        lemma_pieces_nonempty(s@.take(0), '-');
        assert(s@.take(0) =~= Seq::<char>::empty());
    }
    while i < s.len()
        invariant
            start <= i <= s@.len(),
            s@ == name@,
            pieces(s@.take(i as int), '-').len() >= 1,
            pieces(s@.take(i as int), '-').last() == s@.subrange(start as int, i as int),
            words == name_words(pieces(s@.take(i as int), '-').drop_last()).len(),
            out@ == joined(name_words(pieces(s@.take(i as int), '-').drop_last()), ' '),
            words <= i,
        decreases s.len() - i,
    {
        let ghost prev = pieces(s@.take(i as int), '-');
        assert(s@.take(i + 1).drop_last() =~= s@.take(i as int));
        assert(s@.take(i + 1).last() == s@[i as int]);
        if s[i] == '-' {
            let ghost done = name_words(prev.drop_last());
            if start < i {
                append_word(&mut out, words, &s, start, i);
                assert(prev.drop_last().push(prev.last()) =~= prev);
                assert(name_words(prev) == done.push(capitalized(s@.subrange(start as int, i as int))));
                assert(done.push(capitalized(s@.subrange(start as int, i as int))).drop_last() =~= done);
                words = words + 1;
            } else {
                assert(prev.drop_last().push(prev.last()) =~= prev);
            }
            assert(pieces(s@.take(i + 1), '-').drop_last() =~= prev);
            start = i + 1;
            assert(pieces(s@.take(i + 1), '-').last() =~= s@.subrange(start as int, i + 1));
        } else {
            assert(pieces(s@.take(i + 1), '-').drop_last() =~= prev.drop_last());
            assert(pieces(s@.take(i + 1), '-').last() =~= s@.subrange(start as int, i + 1));
        }
        i = i + 1;
    }
    assert(s@.take(s@.len() as int) =~= s@);
    let ghost all = pieces(s@, '-');
    assert(all.drop_last().push(all.last()) =~= all);
    if start < i {
        let ghost done = name_words(all.drop_last());
        append_word(&mut out, words, &s, start, i);
        assert(done.push(capitalized(s@.subrange(start as int, i as int))).drop_last() =~= done);
    }
    out
}

/// A guard never raises the damage it reduces, and a guard of 0 percent
/// leaves it as it is.
pub proof fn law_guard_never_raises(damage: u16, pct: u8)
    ensures
        guarded(damage, pct) <= damage,
        pct == 0 ==> guarded(damage, pct) == damage,
{
}

/// Where the damage fits in 16 bits, a blow does between 85 percent of the
/// base (rounded down) and the whole base, and never less than 1.
pub proof fn law_damage_spread(level: u8, attack: u16, defense: u16, roll: u32)
    requires
        damage_base(level, attack, defense) <= u16::MAX,
    ensures
        1 <= damage_value(level, attack, defense, roll) <= damage_base(level, attack, defense),
        damage_value(level, attack, defense, roll) >= damage_base(level, attack, defense) * 85 / 100,
{
    let b = damage_base(level, attack, defense);
    let v = 85 + (roll % 16) as int;
    assert(b >= 2) by {
        let l = at_least_one(level as int);
        let a = at_least_one(attack as int);
        let d = at_least_one(defense as int);
        assert((((2 * l / 5 + 2) * 40 * a) / d) >= 0) by (nonlinear_arith)
            requires
                l >= 1,
                a >= 1,
                d >= 1,
        ;
    }
    assert(b * 85 / 100 <= b * v / 100 <= b) by (nonlinear_arith)
        requires
            b >= 2,
            85 <= v <= 100,
    ;
}

/// Levelling up from a level no higher than the highest never lowers the
/// level nor passes the highest, and stops only where the next threshold
/// is out of reach.
pub proof fn law_level_after_bounds(level: u8, exp: u32)
    requires
        level <= MAX_LEVEL,
    ensures
        level <= level_after(level, exp) <= MAX_LEVEL,
        level_after(level, exp) < MAX_LEVEL ==> exp < level_exp((level_after(level, exp) + 1) as u8),
    decreases 100 - level,
{
    if level < MAX_LEVEL && exp >= level_exp((level + 1) as u8) {
        law_level_after_bounds((level + 1) as u8, exp);
    }
}

/// More experience never gives a lower level.
pub proof fn law_level_after_monotone(level: u8, less: u32, more: u32)
    requires
        less <= more,
    ensures
        level_after(level, less) <= level_after(level, more),
    decreases 100 - level,
{
    if level < MAX_LEVEL && less >= level_exp((level + 1) as u8) {
        law_level_after_monotone((level + 1) as u8, less, more);
    } else {
        lemma_level_after_grows(level, more);
    }
}

/// A roll below the pool's total weight always lands on an entry of the
/// pool, and on one whose weight is not zero.
pub proof fn law_pick_lands_in_pool(pool: Seq<ItemDrop>, roll: int)
    requires
        0 <= roll < total_weight(pool),
    ensures
        pick_by_weight(pool, roll) matches Some(i) && 0 <= i < pool.len() && pool[i].weight > 0,
    decreases pool.len(),
{
    lemma_total_weight_front(pool);
    if roll >= pool[0].weight {
        law_pick_lands_in_pool(pool.drop_first(), roll - pool[0].weight);
    }
}

/// A wild enemy's level always lies within 2 and the highest level, and
/// within 2 of the player's level (taken as at least 2) where the player is
/// not past the highest.
pub proof fn law_wild_level_range(player_level: u8, roll: u32)
    requires
        player_level <= MAX_LEVEL,
    ensures
        2 <= wild_level(player_level, roll) <= MAX_LEVEL,
        ({
            let base = if player_level < 2 { 2 } else { player_level as int };
            base - 2 <= wild_level(player_level, roll) <= base + 2
        }),
{
}

} // verus!
