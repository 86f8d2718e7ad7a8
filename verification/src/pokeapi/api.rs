//! What the browser makes of PokeAPI replies once they are read: labels
//! and order of regions, the type list, English texts, evolution stages,
//! and the names under which replies are cached.
use vstd::prelude::*;
use vstd::string::StringSliceAdditionalSpecFns;
use crate::digest::{hex_lower, sha256_hex, spec_sha256};
use crate::order::seq_lt;
use crate::pokeapi::state::{EvolutionChain, PokedexEntry, RegionInfo};
use crate::text::{ascii_upper, upper_char, string_views, chars_of, contains_seq, owned, push_str, str_contains, str_eq, string_of};
use crate::seqs::{first_where, lemma_first_where_at, lemma_map_values_multiset};

verus! {

/// The address of `path` under the API root, such as `/pokedex/kanto`.
pub fn api_url(path: &str) -> (r: String)
    ensures
        r@ == "https://pokeapi.co/api/v2"@ + path@,
{
    let mut r = owned("https://pokeapi.co/api/v2");
    push_str(&mut r, path);
    r
}

/// The address of resource `name` of kind `kind`, such as
/// `.../pokemon/pikachu`.
pub fn resource_url(kind: &str, name: &str) -> (r: String)
    ensures
        r@ == "https://pokeapi.co/api/v2/"@ + kind@ + "/"@ + name@,
{
    let mut r = owned("https://pokeapi.co/api/v2/");
    push_str(&mut r, kind);
    push_str(&mut r, "/");
    push_str(&mut r, name);
    r
}

/// The file name under which a reply from `url` is cached: the SHA-256 of
/// the URL's UTF-8 bytes in lower-case hex.
pub fn cache_file_name(url: &str) -> (r: String)
    ensures
        r@ == hex_lower(spec_sha256(url.spec_bytes())),
{
    sha256_hex(url.as_bytes())
}

/// A name and the address of the resource it names.
#[derive(Clone, Debug)]
pub struct NamedResource {
    pub name: String,
    pub url: String,
}

/// A text in some language.
#[derive(Clone, Debug)]
pub struct LocalizedText {
    pub text: String,
    pub language: String,
}

/// The effect of a move or ability, long and short, in some language.
#[derive(Clone, Debug)]
pub struct EffectEntry {
    pub effect: String,
    pub short_effect: String,
    pub language: String,
}

/// A node of an evolution chain: a species and what it evolves into.
#[derive(Debug)]
pub struct ChainLink {
    pub species: String,
    pub evolves_to: Vec<ChainLink>,
}

/// `text` with line feeds and form feeds turned into spaces.
pub open spec fn sanitized(text: Seq<char>) -> Seq<char> {
    text.map_values(|c: char| if c == '\n' || c == '\u{000C}' { ' ' } else { c })
}

pub fn sanitize_text(text: &str) -> (r: String)
    ensures
        r@ == sanitized(text@),
{
    let v = chars_of(text);
    let mut out = String::new();
    let mut i: usize = 0;
    while i < v.len()
        invariant
            i <= v@.len(),
            v@ == text@,
            out@ == sanitized(v@.subrange(0, i as int)),
        decreases v.len() - i,
    {
        let c = v[i];
        let d = if c == '\n' || c == '\u{000C}' {
            ' '
        } else {
            c
        };
        crate::text::string_push(&mut out, d);
        assert(sanitized(v@.subrange(0, i + 1)) =~= sanitized(v@.subrange(0, i as int)).push(d));
        i = i + 1;
    }
    assert(v@.subrange(0, v@.len() as int) =~= v@);
    out
}

/// Whether an entry is in English.
pub open spec fn english_effect() -> spec_fn(EffectEntry) -> bool {
    |e: EffectEntry| e.language@ == "en"@
}

/// The English effect text: the short effect of the first English entry,
/// or its long effect when the short one is empty, without line breaks.
pub open spec fn effect_text_spec(entries: Seq<EffectEntry>) -> Option<Seq<char>> {
    match first_where(entries, english_effect()) {
        Some(i) => Some(
            sanitized(
                if entries[i].short_effect@.len() == 0 {
                    entries[i].effect@
                } else {
                    entries[i].short_effect@
                },
            ),
        ),
        None => None,
    }
}

pub fn effect_text(entries: &Vec<EffectEntry>) -> (r: Option<String>)
    ensures
        match effect_text_spec(entries@) {
            Some(t) => r matches Some(s) && s@ == t,
            None => r is None,
        },
{
    let ghost p = english_effect();
    let mut i: usize = 0;
    while i < entries.len()
        invariant
            i <= entries@.len(),
            p == english_effect(),
            forall|j: int| 0 <= j < i ==> !p(#[trigger] entries@[j]),
        decreases entries.len() - i,
    {
        if str_eq(entries[i].language.as_str(), "en") {
            proof {
                lemma_first_where_at(entries@, p, i as int);
            }
            let e = &entries[i];
            if e.short_effect.as_str().unicode_len() == 0 {
                return Some(sanitize_text(e.effect.as_str()));
            } else {
                return Some(sanitize_text(e.short_effect.as_str()));
            }
        }
        i = i + 1;
    }
    proof {
        lemma_first_where_at(entries@, p, i as int);
    }
    None
}

/// Whether a text is in English.
pub open spec fn english_text() -> spec_fn(LocalizedText) -> bool {
    |e: LocalizedText| e.language@ == "en"@
}

/// The first English text, as it is.
pub fn first_english(entries: &Vec<LocalizedText>) -> (r: Option<String>)
    ensures
        match first_where(entries@, english_text()) {
            Some(i) => r matches Some(s) && s@ == entries@[i].text@,
            None => r is None,
        },
{
    let ghost p = english_text();
    let mut i: usize = 0;
    while i < entries.len()
        invariant
            i <= entries@.len(),
            p == english_text(),
            forall|j: int| 0 <= j < i ==> !p(#[trigger] entries@[j]),
        decreases entries.len() - i,
    {
        if str_eq(entries[i].language.as_str(), "en") {
            proof {
                lemma_first_where_at(entries@, p, i as int);
            }
            return Some(entries[i].text.clone());
        }
        i = i + 1;
    }
    proof {
        lemma_first_where_at(entries@, p, i as int);
    }
    None
}

/// The first English flavor text, without line breaks.
pub fn flavor_text(entries: &Vec<LocalizedText>) -> (r: Option<String>)
    ensures
        match first_where(entries@, english_text()) {
            Some(i) => r matches Some(s) && s@ == sanitized(entries@[i].text@),
            None => r is None,
        },
{
    match first_english(entries) {
        Some(t) => Some(sanitize_text(t.as_str())),
        None => None,
    }
}

/// The label of a dex: its name with hyphens as spaces, in ASCII capitals;
/// the national dex and the Conquest dexes get none.
pub open spec fn region_label(name: Seq<char>) -> Option<Seq<char>> {
    if name == "national"@ || contains_seq(name, "conquest"@) {
        None
    } else {
        Some(name.map_values(|c: char| ascii_upper(if c == '-' { ' ' } else { c })))
    }
}

pub fn format_region_label(name: &str) -> (r: Option<String>)
    ensures
        match region_label(name@) {
            Some(l) => r matches Some(s) && s@ == l,
            None => r is None,
        },
{
    if str_eq(name, "national") || str_contains(name, "conquest") {
        return None;
    }
    let v = chars_of(name);
    let mut out = String::new();
    let mut i: usize = 0;
    while i < v.len()
        invariant
            i <= v@.len(),
            v@ == name@,
            out@ == v@.subrange(0, i as int).map_values(|c: char| ascii_upper(if c == '-' { ' ' } else { c })),
        decreases v.len() - i,
    {
        let c = v[i];
        let d = upper_char(if c == '-' { ' ' } else { c });
        crate::text::string_push(&mut out, d);
        assert(v@.subrange(0, i + 1).map_values(|c: char| ascii_upper(if c == '-' { ' ' } else { c }))
            =~= v@.subrange(0, i as int).map_values(|c: char| ascii_upper(if c == '-' { ' ' } else { c })).push(d));
        i = i + 1;
    }
    assert(v@.subrange(0, v@.len() as int) =~= v@);
    Some(out)
}

/// The regional dexes in the order the browser lists them.
pub open spec fn region_order() -> Seq<Seq<char>> {
    seq![
        "kanto"@, "original-johto"@, "hoenn"@, "sinnoh"@, "unova"@, "kalos-central"@,
        "kalos-coastal"@, "kalos-mountain"@, "alola"@, "melemele"@, "akala"@, "ulaula"@,
        "poni"@, "galar"@, "isle-of-armor"@, "crown-tundra"@, "hisui"@, "paldea"@,
    ]
}

/// The rank of a dex: its place in `region_order`, after all of them when
/// it is not listed.
pub open spec fn region_rank(name: Seq<char>) -> int {
    match first_where(region_order(), |x: Seq<char>| x == name) {
        Some(i) => i,
        None => region_order().len() as int,
    }
}

pub fn region_sort_key(name: &str) -> (k: (usize, String))
    ensures
        k.0 as int == region_rank(name@),
        k.1@ == name@,
{
    let order: [&str; 18] = [
        "kanto",
        "original-johto",
        "hoenn",
        "sinnoh",
        "unova",
        "kalos-central",
        "kalos-coastal",
        "kalos-mountain",
        "alola",
        "melemele",
        "akala",
        "ulaula",
        "poni",
        "galar",
        "isle-of-armor",
        "crown-tundra",
        "hisui",
        "paldea",
    ];
    proof {
        reveal_strlit("kanto");
        reveal_strlit("original-johto");
        reveal_strlit("hoenn");
        reveal_strlit("sinnoh");
        reveal_strlit("unova");
        reveal_strlit("kalos-central");
        reveal_strlit("kalos-coastal");
        reveal_strlit("kalos-mountain");
        reveal_strlit("alola");
        reveal_strlit("melemele");
        reveal_strlit("akala");
        reveal_strlit("ulaula");
        reveal_strlit("poni");
        reveal_strlit("galar");
        reveal_strlit("isle-of-armor");
        reveal_strlit("crown-tundra");
        reveal_strlit("hisui");
        reveal_strlit("paldea");
    }
    let ghost ro = region_order();
    let ghost p = |x: Seq<char>| x == name@;
    assert(forall|j: int| 0 <= j < 18 ==> (#[trigger] order@[j])@ == ro[j]);
    let mut i: usize = 0;
    while i < 18
        invariant
            i <= 18,
            ro == region_order(),
            ro.len() == 18,
            p == (|x: Seq<char>| x == name@),
            forall|j: int| 0 <= j < 18 ==> (#[trigger] order@[j])@ == ro[j],
            forall|j: int| 0 <= j < i ==> !p(#[trigger] ro[j]),
        decreases 18 - i,
    {
        if str_eq(order[i], name) {
            proof {
                lemma_first_where_at(ro, p, i as int);
            }
            return (i, owned(name));
        }
        i = i + 1;
    }
    proof {
        lemma_first_where_at(ro, p, 18);
    }
    (18, owned(name))
}

/// Whether `a`'s sort key comes at or before `b`'s: first by rank, then by
/// name.
pub open spec fn region_key_le(a: Seq<char>, b: Seq<char>) -> bool {
    region_rank(a) < region_rank(b) || (region_rank(a) == region_rank(b) && !seq_lt(b, a))
}

/// The dexes worth listing, each with its label, in the listing order.
pub open spec fn listed(names: Seq<Seq<char>>) -> Seq<Seq<char>>
    decreases names.len(),
{
    if names.len() == 0 {
        seq![]
    } else {
        let rest = listed(names.drop_last());
        if region_label(names.last()) is Some {
            rest.push(names.last())
        } else {
            rest
        }
    }
}

/// `x` placed after the last name of `sorted` that comes no later than it:
/// a step of a stable sort by region rank and name.
pub open spec fn insert_by_region(sorted: Seq<Seq<char>>, x: Seq<char>) -> Seq<Seq<char>>
    decreases sorted.len(),
{
    if sorted.len() == 0 {
        seq![x]
    } else if region_key_le(sorted.last(), x) {
        sorted.push(x)
    } else {
        insert_by_region(sorted.drop_last(), x).push(sorted.last())
    }
}

/// Region names stably sorted by rank and then name.
pub open spec fn names_by_region(names: Seq<Seq<char>>) -> Seq<Seq<char>>
    decreases names.len(),
{
    if names.len() == 0 {
        seq![]
    } else {
        insert_by_region(names_by_region(names.drop_last()), names.last())
    }
}

/// Calls `slice::sort_by_key` with `region_sort_key` as the key. std
/// documents the sort as stable and the result as sorted by the key; the
/// contract states that the result is a rearrangement of the input that is
/// sorted by rank and then name, equal keys keeping their order.
#[verifier::external_body]
fn sort_regions(regions: &mut Vec<RegionInfo>)
    ensures
        final(regions)@.to_multiset() == old(regions)@.to_multiset(),
        region_names(final(regions)@) == names_by_region(region_names(old(regions)@)),
        forall|i: int, j: int|
            0 <= i < j < final(regions)@.len() ==> region_key_le(
                #[trigger] final(regions)@[i].name@,
                #[trigger] final(regions)@[j].name@,
            ),
{
    regions.sort_by_key(|r| region_sort_key(r.name.as_str()))
}

/// The names of a list of resources.
pub open spec fn resource_names(v: Seq<NamedResource>) -> Seq<Seq<char>> {
    v.map_values(|e: NamedResource| e.name@)
}

/// The dex names of a list of regions.
pub open spec fn region_names(v: Seq<RegionInfo>) -> Seq<Seq<char>> {
    v.map_values(|x: RegionInfo| x.name@)
}

/// The regions of a dex list: the listed dexes, each with its label, in
/// the listing order.
pub fn regions_from(entries: &Vec<NamedResource>) -> (r: Vec<RegionInfo>)
    ensures
        region_names(r@).to_multiset() == listed(resource_names(entries@)).to_multiset(),
        forall|i: int| 0 <= i < r@.len() ==> region_label((#[trigger] r@[i]).name@) == Some(r@[i].label@),
        forall|i: int, j: int| 0 <= i < j < r@.len() ==> region_key_le(#[trigger] r@[i].name@, #[trigger] r@[j].name@),
        region_names(r@) == names_by_region(listed(resource_names(entries@))),
{
    let ghost names = resource_names(entries@);
    let mut out: Vec<RegionInfo> = Vec::new();
    let mut i: usize = 0;
    while i < entries.len()
        invariant
            i <= entries@.len(),
            names == resource_names(entries@),
            region_names(out@) == listed(names.subrange(0, i as int)),
            forall|k: int| 0 <= k < out@.len() ==> region_label((#[trigger] out@[k]).name@) == Some(out@[k].label@),
        decreases entries.len() - i,
    {
        assert(names.subrange(0, i + 1).drop_last() =~= names.subrange(0, i as int));
        assert(names.subrange(0, i + 1).last() == entries@[i as int].name@);
        match format_region_label(entries[i].name.as_str()) {
            Some(label) => {
                let ghost before = out@;
                out.push(RegionInfo { name: entries[i].name.clone(), label });
                assert(region_names(out@) =~= region_names(before).push(entries@[i as int].name@));
            },
            None => {},
        }
        i = i + 1;
    }
    assert(names.subrange(0, names.len() as int) =~= names);
    let ghost pre = out@;
    sort_regions(&mut out);
    proof {
        lemma_map_values_multiset(out@, pre, |x: RegionInfo| x.name@);
        broadcast use vstd::seq_lib::to_multiset_contains;
        assert forall|k: int| 0 <= k < out@.len() implies region_label((#[trigger] out@[k]).name@) == Some(out@[k].label@) by {
            let x = out@[k];
            assert(out@.contains(x));
            assert(out@.to_multiset().count(x) > 0);
            assert(pre.to_multiset().count(x) > 0);
            assert(pre.contains(x));
        }
    }
    out
}

/// `x` placed after the last entry of `sorted` whose number is no greater:
/// a step of a stable sort by entry number.
pub open spec fn insert_by_number(sorted: Seq<PokedexEntry>, x: PokedexEntry) -> Seq<PokedexEntry>
    decreases sorted.len(),
{
    if sorted.len() == 0 {
        seq![x]
    } else if sorted.last().entry_number <= x.entry_number {
        sorted.push(x)
    } else {
        insert_by_number(sorted.drop_last(), x).push(sorted.last())
    }
}

/// Dex entries stably sorted by number.
pub open spec fn by_number(entries: Seq<PokedexEntry>) -> Seq<PokedexEntry>
    decreases entries.len(),
{
    if entries.len() == 0 {
        seq![]
    } else {
        insert_by_number(by_number(entries.drop_last()), entries.last())
    }
}

/// Calls `slice::sort_by_key` with the entry number as key. std documents
/// the sort as stable and the result as sorted by the key; the contract
/// states that it is a rearrangement of the input in non-decreasing entry
/// number, entries of equal number keeping their order.
#[verifier::external_body]
fn sort_by_number(entries: &mut Vec<PokedexEntry>)
    ensures
        final(entries)@.to_multiset() == old(entries)@.to_multiset(),
        final(entries)@ == by_number(old(entries)@),
        forall|i: int, j: int|
            0 <= i < j < final(entries)@.len() ==> #[trigger] final(entries)@[i].entry_number
                <= #[trigger] final(entries)@[j].entry_number,
{
    entries.sort_by_key(|e| e.entry_number)
}

/// The entries of a dex in the order of their numbers.
pub fn pokedex_in_order(entries: Vec<PokedexEntry>) -> (r: Vec<PokedexEntry>)
    ensures
        r@ == by_number(entries@),
        r@.to_multiset() == entries@.to_multiset(),
        forall|i: int, j: int| 0 <= i < j < r@.len() ==> #[trigger] r@[i].entry_number <= #[trigger] r@[j].entry_number,
{
    let mut r = entries;
    sort_by_number(&mut r);
    r
}

/// Calls `slice::sort` on strings. std documents `String`'s order as the
/// lexicographic order of its bytes, which for UTF-8 text is the
/// lexicographic order of its characters; the contract states that the
/// result is a rearrangement of the input in that order.
#[verifier::external_body]
fn sort_strings(v: &mut Vec<String>)
    ensures
        string_views(final(v)@).to_multiset() == string_views(old(v)@).to_multiset(),
        forall|i: int, j: int|
            0 <= i < j < final(v)@.len() ==> !seq_lt(#[trigger] final(v)@[j]@, #[trigger] final(v)@[i]@),
{
    v.sort()
}

/// Whether a type is listed: all but `unknown` and `shadow`.
pub open spec fn listed_type(name: Seq<char>) -> bool {
    name != "unknown"@ && name != "shadow"@
}

/// The listed types among `names`, in their order.
pub open spec fn listed_types(names: Seq<Seq<char>>) -> Seq<Seq<char>>
    decreases names.len(),
{
    if names.len() == 0 {
        seq![]
    } else if listed_type(names.last()) {
        listed_types(names.drop_last()).push(names.last())
    } else {
        listed_types(names.drop_last())
    }
}

/// The type list: the listed types, in alphabetical order.
pub fn type_names(names: Vec<String>) -> (r: Vec<String>)
    ensures
        string_views(r@).to_multiset() == listed_types(string_views(names@)).to_multiset(),
        forall|i: int, j: int| 0 <= i < j < r@.len() ==> !seq_lt(#[trigger] r@[j]@, #[trigger] r@[i]@),
{
    let ghost all = string_views(names@);
    let mut out: Vec<String> = Vec::new();
    let mut i: usize = 0;
    while i < names.len()
        invariant
            i <= names@.len(),
            all == string_views(names@),
            string_views(out@) == listed_types(all.subrange(0, i as int)),
        decreases names.len() - i,
    {
        let n = &names[i];
        assert(all.subrange(0, i + 1).drop_last() =~= all.subrange(0, i as int));
        assert(all.subrange(0, i + 1).last() == n@);
        proof {
            reveal_strlit("unknown");
            reveal_strlit("shadow");
        }
        if !str_eq(n.as_str(), "unknown") && !str_eq(n.as_str(), "shadow") {
            let ghost before = out@;
            out.push(n.clone());
            assert(string_views(out@) =~= string_views(before).push(n@));
        }
        i = i + 1;
    }
    assert(all.subrange(0, all.len() as int) =~= all);
    sort_strings(&mut out);
    out
}

/// `acc` with `name` added at the end unless already there.
pub open spec fn add_once(acc: Seq<Seq<char>>, name: Seq<char>) -> Seq<Seq<char>> {
    if acc.contains(name) { acc } else { acc.push(name) }
}

/// The stages of a chain in order, each once: a species, then the stages
/// of what it evolves into, one branch after another.
pub open spec fn stages_of(link: ChainLink, acc: Seq<Seq<char>>) -> Seq<Seq<char>>
    decreases link, 1int,
{
    stages_of_all(link.evolves_to@, add_once(acc, link.species@))
}

/// The stages of several chains in turn.
pub open spec fn stages_of_all(links: Seq<ChainLink>, acc: Seq<Seq<char>>) -> Seq<Seq<char>>
    decreases links, 0int,
{
    if links.len() == 0 {
        acc
    } else {
        stages_of_all(links.drop_first(), stages_of(links[0], acc))
    }
}

fn contains_name(v: &Vec<String>, name: &String) -> (b: bool)
    ensures
        b == string_views(v@).contains(name@),
{
    let mut i: usize = 0;
    while i < v.len()
        invariant
            i <= v@.len(),
            forall|j: int| 0 <= j < i ==> (#[trigger] v@[j])@ != name@,
        decreases v.len() - i,
    {
        if str_eq(v[i].as_str(), name.as_str()) {
            assert(string_views(v@)[i as int] == name@);
            return true;
        }
        i = i + 1;
    }
    assert forall|j: int| 0 <= j < v@.len() implies string_views(v@)[j] != name@ by {
        assert((#[trigger] v@[j])@ != name@);
    }
    false
}

/// Collects the stages of a chain into `stages` (see `stages_of`).
pub fn build_chain_stages(chain: &ChainLink, stages: &mut Vec<String>)
    ensures
        string_views(final(stages)@) == stages_of(*chain, string_views(old(stages)@)),
    decreases chain,
{
    let ghost before = string_views(stages@);
    if !contains_name(stages, &chain.species) {
        stages.push(chain.species.clone());
        assert(string_views(stages@) =~= before.push(chain.species@));
    }
    let ghost acc = string_views(stages@);
    assert(acc == add_once(before, chain.species@));
    let ghost links = chain.evolves_to@;
    assert(links.skip(0) =~= links);
    let mut i: usize = 0;
    while i < chain.evolves_to.len()
        invariant
            i <= links.len(),
            links == chain.evolves_to@,
            stages_of(*chain, before) == stages_of_all(links.skip(i as int), string_views(stages@)),
        decreases chain.evolves_to.len() - i,
    {
        assert(links.skip(i as int).drop_first() =~= links.skip(i + 1));
        assert(links.skip(i as int)[0] == links[i as int]);
        proof {
            vstd::std_specs::vec::axiom_vec_index_decreases(chain.evolves_to, i as int);
        }
        build_chain_stages(&chain.evolves_to[i], stages);
        i = i + 1;
    }
}

/// The evolution chain `id` read from its root link: its stages in order.
pub fn evolution_chain(id: &str, chain: &ChainLink) -> (r: EvolutionChain)
    ensures
        r.id@ == id@,
        string_views(r.stages@) == stages_of(*chain, seq![]),
{
    let mut stages: Vec<String> = Vec::new();
    assert(string_views(stages@) =~= Seq::<Seq<char>>::empty());
    build_chain_stages(chain, &mut stages);
    EvolutionChain { id: owned(id), stages }
}

} // verus!
