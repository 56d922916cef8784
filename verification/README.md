# jump-cli

A terminal tool in two parts: `jump`, a fuzzy directory finder with visit
history ("frecency") and named pins, and `exp`, a two-pane file explorer with
previews.

## Layout

- `src/` is the library, written in Verus. Every function in it carries a
  `requires`/`ensures` contract that Verus proves: ranking and filtering of
  search results, the visit and pin store, the state of both screens and what
  each key or mouse event does to it, the text of every preview, and the
  messages of file operations. Laws that relate several operations (for
  example, that Backspace undoes a typed character, or that unpinning undoes
  a pin) are public proof functions whose names start with `law_`.
- `app/` is the program around the library: argument parsing, the terminal
  loop and drawing, walking and changing the disk, and running outside
  programs. It hands the library plain values and acts on what comes back.
- `tests/` runs the library on concrete inputs.

Calls into std and the outside crates that the library relies on are made
through small trusted wrappers, each with a doc comment that says what its
contract claims.
