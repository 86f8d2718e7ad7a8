//! What the game keeps of a creature fetched from the Pokemon API.
use vstd::prelude::*;
use crate::poketui::state::PokemonInfo;
use crate::text::str_eq;

verus! {

/// The base value of the first stat called `name`; 35 where there is none.
pub open spec fn stat_named(stats: Seq<(String, u16)>, name: Seq<char>) -> u16
    decreases stats.len(),
{
    if stats.len() == 0 {
        35
    } else if stats[0].0@ == name {
        stats[0].1
    } else {
        stat_named(stats.drop_first(), name)
    }
}

/// Looks up the first stat called `name`.
pub fn find_stat(stats: &Vec<(String, u16)>, name: &str) -> (v: u16)
    ensures
        v == stat_named(stats@, name@),
{
    let mut i: usize = 0;
    assert(stats@.skip(0) =~= stats@);
    while i < stats.len()
        invariant
            i <= stats@.len(),
            stat_named(stats@, name@) == stat_named(stats@.skip(i as int), name@),
        decreases stats.len() - i,
    {
        assert(stats@.skip(i as int).drop_first() =~= stats@.skip(i + 1));
        assert(stats@.skip(i as int)[0] == stats@[i as int]);
        if str_eq(stats[i].0.as_str(), name) {
            return stats[i].1;
        }
        i = i + 1;
    }
    35
}

/// A creature as the game keeps it, from the API's reply: its name, its
/// base experience (60 where the reply has none), its six base stats by
/// name (35 where missing), and the addresses of its front and back
/// images, still and animated.
pub fn pokemon_info_from(
    name: String,
    base_experience: Option<u16>,
    stats: &Vec<(String, u16)>,
    front: Option<String>,
    back: Option<String>,
    front_animated: Option<String>,
    back_animated: Option<String>,
) -> (p: PokemonInfo)
    ensures
        p == (PokemonInfo {
            name,
            base_experience: match base_experience {
                Some(b) => b,
                None => 60,
            },
            hp: stat_named(stats@, "hp"@),
            attack: stat_named(stats@, "attack"@),
            defense: stat_named(stats@, "defense"@),
            sp_attack: stat_named(stats@, "special-attack"@),
            sp_defense: stat_named(stats@, "special-defense"@),
            speed: stat_named(stats@, "speed"@),
            sprite_front_default: front,
            sprite_back_default: back,
            sprite_front_animated: front_animated,
            sprite_back_animated: back_animated,
        }),
{
    PokemonInfo {
        name,
        base_experience: match base_experience {
            Some(b) => b,
            None => 60,
        },
        hp: find_stat(stats, "hp"),
        attack: find_stat(stats, "attack"),
        defense: find_stat(stats, "defense"),
        sp_attack: find_stat(stats, "special-attack"),
        sp_defense: find_stat(stats, "special-defense"),
        speed: find_stat(stats, "speed"),
        sprite_front_default: front,
        sprite_back_default: back,
        sprite_front_animated: front_animated,
        sprite_back_animated: back_animated,
    }
}

} // verus!
