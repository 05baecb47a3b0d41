# rust_diablo

Diablo 1 engine pieces with machine-checked contracts: the resource formats
(palette, PCX, TRN, CLX, CL2, dungeon CEL), the isometric and camera geometry, the
render plan and pass policy, tile-triangle drawing, lighting, the cathedral level
generator and the tile-walking rules. Every function under `src/` is verified with
Verus; `tests/` runs the library; `app/` is the SDL2 program around it (window,
input, logging, MPQ archives through libmpq, float timing of animations).

Layout of `src/`: `resources/` (file formats), `engine/` (directions, isometric
math, tile diamonds, texture uploads, triangle drawing), `renderer/` (camera, framebuffer, render plan and
passes), `lighting/`, `levels/` (cathedral generator and its random source),
`math/`, `entity.rs` and `sprite.rs` (walking and animation rules), `game.rs`
(scenes and the per-frame input rules), `debug.rs` and
`devtools.rs` (render debug switches), `assets.rs`, `tiles.rs`.
