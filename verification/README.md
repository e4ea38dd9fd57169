# causal_triangulations

A verified core for 1+1-dimensional Causal Dynamical Triangulations (CDT):
configuration rules, the CDT bookkeeping of a triangular mesh (time-slice
labels, foliation, causal classification of edges and triangles), the
validation passes that decide whether a mesh is a strict CDT strip or torus,
and the builders that wrap a generated mesh into a checked triangulation.

Everything under `src/` is written in Verus and proved against its
contracts; `app/` holds the command line, serde/clap copies of the
configuration types, the lookup of the home directory, and the
floating-point point placement that feeds a geometry backend.

## Layout

- `src/config.rs` — configuration, validation rules, overrides, presets.
- `src/cli.rs` — parsing of the vertex-count options and spatial profiles.
- `src/paths.rs` — lexical path resolution (`~`, `.`, `..`).
- `src/mesh.rs` — the labeled triangle mesh the library works on.
- `src/foliation.rs` — time-slice arithmetic, edge and triangle classification,
  foliation bookkeeping.
- `src/triangulation/` — the triangulation state and its queries, labeling,
  validation, named validation profiles, builders (checkpoint restore among
  them) and simplex filtering.
- `src/errors.rs`, `src/text.rs` — error values and their text.
- `tests/` — executable tests of the library.
