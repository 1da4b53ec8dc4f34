# flatcaster

The verified core of a first-person maze explorer, written in Verus.

`src/` is the library. Every function in it carries a contract; Verus
proves each of them except those of the few functions marked
`#[verifier::external_body]`, which wrap calls into `rand` and
`rand_chacha` (in `rng`) and into `std`'s `String` collection (in `text`),
and whose contracts are taken on trust from those crates' documentation:

- `rect_maze`, `kruskal`, `circular_maze`, `hex_maze`, `chunk` carve the
  world's mazes (depth-first backtracking, Prim, Kruskal with the union-find
  of `disjoint_set`) from a seeded ChaCha8 generator (`rng`), and prove that
  each is a perfect maze: every cell can be reached and the open walls are
  exactly one fewer than the cells; `graph` and `grid` hold the reasoning
  they share.
- `settings`, `bindings`, `text`, `window_mode` read and write the settings
  file; `settings_laws` proves that writing settings and reading them back
  gives them back.
- `menu_*` is the pause menu as a state machine over its view, one frame of
  input at a time, with the invariant every frame keeps; `menu_hud` lists
  the texts each screen shows and how, and `session` what the game does with
  the menu's answers.
- `brains`, `weapons`, `entity_kind` hold the creatures' and the player's
  timed decisions; `icon` decodes the window icon; `seed_gen` draws world
  seeds.

`app/` is the program around it: the window, input events, drawing, the
clock and everything computed in floating point. `tests/` exercises the
library.
