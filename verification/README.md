# speedsun

A simulator for the 3x3x3 jumbling cube, whose keybind system, filters and
undo history are a library proved correct with Verus.

## Layout

- `src/` is the verified library:
  - `puzzle.rs`: sides, axes, layer masks, twists and rotations, and which
    pieces a twist moves, leaves or is blocked by.
  - `notation.rs`: the names of twists (`R`, `Rw3/2'`, `M`, `x2`).
  - `lexer.rs`, `parser.rs`, `expr.rs`: the keybind expression language, its
    grammar and its evaluation, each against a specification of the text.
  - `input.rs`, `vars.rs`: the persistent input state and the builtin and
    user variables a pass reads.
  - `bindings.rs`, `keybinds.rs`, `defaults.rs`, `edges.rs`, `editor.rs`: the
    folder tree of bindings, the pass that turns input into at most one
    command, the default set, and why a held key fires once.
  - `reference.rs`: the keyboard of the keybind reference, in quarter keys.
  - `filters.rs`, `filter_edit.rs`: piece sets, the staged filters that style
    each piece, and the edits the filter editor makes.
  - `history.rs`, `view.rs`, `commands.rs`: undo and redo, the pointer's
    hover and the selection, and the commands components exchange.
- `app/` is the program around it: the egui window, the wgpu renderer, the
  puzzle's float geometry and animation.
- `tests/` runs the library on concrete values.

## Collections

A set of sides is `SideSet`, six booleans indexed by side, and last pass's
variable values are a `Vec` of names and values in order, looked up from the
end. vstd's specifications of `HashSet` and `HashMap` only let a proof follow
`insert` and `get` for keys whose hashing and equality Verus can trust, and
neither an enum with a derived `Hash` nor a `String` is such a key; with six
sides and a few dozen variables nothing is lost by a linear scan.
