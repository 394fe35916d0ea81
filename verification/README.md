# foglet_game

A kit for turn-based terminal games, written in Verus.

- `src/` is the library. Every function in it states what it does in `requires`
  and `ensures`, and Verus proves it. The laws that hold between functions are
  public proof functions.
- `tests/` runs the library on concrete values.
- `app/` is the program around it: the terminal, the file system and the
  database.

The few functions of `ratatui` and of the standard library that the library
calls stand behind small functions marked `external_body`, in `src/canvas.rs`,
`src/text.rs` and `src/save.rs`. Their comments say what is taken for granted.

| module | what it holds |
|---|---|
| `prompt` | keys, themes, text blocks, choices, confirmations, pauses, feedback |
| `prompt_screen`, `screen`, `screens` | screens and the stack they live on |
| `runtime` | the game builder, the launch and the loop |
| `save` | save paths, slots and replacing a file |
| `terminal` | entering and leaving the terminal |
| `travel`, `spatial`, `services`, `turns` | the rules of the shared world |
| `triggered_outcomes`, `weighted`, `roles` | repeatable choices and permissions |
| `canvas`, `wrap`, `text` | drawing, wrapping, text |
| `test_support` | several players on one world |
