# tui_games

The game logic of four terminal games, verified with Verus:

- `lightline`: a lantern labyrinth with seeded floor generation, a trail
  of light, and a hunter or a collapsing floor as danger.
- `dndtui`: a map-based adventure with point-buy character creation,
  combat rules, NPC dialogue and free-form actions voiced by a language
  model.
- `pokeapi`: a Pokedex browser over the PokeAPI: lists, filters, search,
  details, favorites and team.
- `poketui`: a creature-battling route with a party, items, abilities,
  scenario events and pickups.

`src/` is the verified library: every state change is a reducer with a
contract. `app/` runs the games in a terminal: keys, network, files,
drawing. `tests/` runs the library on concrete cases.
