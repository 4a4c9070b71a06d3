# vzglyd_kernel

The platform-agnostic core of the VZGLYD slide display engine, written in Verus.

- `src/` — the verified library: playlist and manifest models and their validation rules,
  playlist hydration, the slide rotation decisions (which slide comes next, when a
  transition starts and ends), transition choice, the shared-memory wire format (builder
  and decoder), shader contract checks (over naga's parse of the source), the integer side
  of the HUD overlay (font atlas, text normalisation), and GLB scene import up to the
  choice and naming of the scene (over gltf's parse of the file), with the decisions made
  for each node and animation channel.
- `tests/` — tests of the library.
- `app/` — the host-side code around it: serde parsing, reading files, the engine loop
  with its float frame timing and the render commands it issues, HUD geometry, and the
  `glam` transform and vertex arithmetic of GLB import.

## What is proved and what is trusted

Every executable function in `src/` carries a contract that Verus proves, except the
wrappers marked `#[verifier::external_body]`: each makes one call into `naga`, `gltf`,
`font8x8` or std (`str::from_utf8`, the text of a `Utf8Error`, `String::push`), and Verus
believes its contract. Their doc comments say what is claimed of the outside code. Where
the outside result takes pages to state (naga's parse and validation, gltf's parse, a
glyph's bits), the contract names it with an uninterpreted spec function, and the
library's contracts are stated over that name. The naga wrappers assume that naga's WGSL
parser and validator return normally on every source: naga holds internal `unwrap`s,
`unreachable!`s and a nesting limit that are not shown never to fire. The gltf wrapper
leaves out, by its `requires`, the one input found to panic (a GLB length field below 12),
and `open_glb_scene` refuses that input before calling it. `gltf::Gltf` and `core::str::Utf8Error`
are declared as opaque outside types.
