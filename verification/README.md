# widgets

Widget-tree bookkeeping and the animated visibility widget of a UI toolkit,
with their contracts proved by Verus.

- `src/tree.rs` — `Forest`: one main root, a pending root and detached roots
  in one `indextree` arena, with an id index; every operation keeps the
  arena acyclic and well formed, the index consistent and the detached
  roots distinct, and its effect is stated over a model of
  the arena.
- `src/arena.rs` — the model of an `indextree` arena and the trusted
  statements of the `indextree` calls the forest makes.
- `src/visibility.rs` — the phase chain `Hidden -> SpatialChange ->
  Transition -> Showing` and its stepping rules.
- `src/animated_visibility.rs` — the widget's runtime information, its
  style, and the decisions it takes at init (style, subscription,
  animation, stored information, child), on a visibility change, at the end
  of an animation, and when it measures, draws, hit-tests and handles
  events (callbacks, then the child).
- `src/widget.rs`, `src/deinit.rs`, `src/types.rs` — widget identity, the
  widget enum, deinitialization (the widget's own hook, then the requests
  that free its context resources), shared value types.
- `app/` — the capability over externally owned values (unsafe code), the
  style builder, and a driver that performs the widget's decisions against a
  context.
