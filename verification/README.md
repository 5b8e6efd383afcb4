# librePvZ logic, verified

The decoding, packing and state logic of a Plants-vs-Zombies engine, as a Rust library whose
functions carry contracts proved by Verus.

- `src/stream.rs`, `src/decode.rs`, `src/reanim.rs`: decoding `.reanim.compiled` files
  (optionally zlib-compressed) into animations, each read specified on the remaining bytes.
- `src/pack.rs`, `src/animation.rs`, `src/action.rs`: packing animations into lists of
  actions per frame, meta tracks (named frame ranges) sorted by name, and the clip of an
  animation (one keyframe curve per kind of action in each track).
- `src/cached.rs`: sorted keyed collections, binary search, and cached lookups.
- `src/model.rs`: the model state machine (triggers, transitions, cool-down timers) and the
  plan for spawning a model with its attachments.
- `src/curve.rs`, `src/clip.rs`, `src/reflect.rs`: curve segments, keyframe curves and their
  builders, animation clips (curves laid out by entity path, sorted by component within each
  path) and the bindings of their curves to entities, entity paths, field paths.
- `src/optics.rs`, `src/basic_optics.rs`: lenses, prisms and their composition, with their
  laws and the text naming a failing prefix; prisms for `Option` and `Result`, lenses for
  tuple fields.
- `src/xml.rs`: the original XML format of `.reanim` files (tags, field order, which fields
  appear); the numbers come in already written out.
- `src/cli.rs`, `src/loader.rs`: format inference, the packing and format decisions for the
  output, and file extensions.
- `app/`: the `reanim-decode` command line program (argument parsing, file I/O, JSON, YAML,
  `bincode` encoders, and the writing of numbers for XML).
