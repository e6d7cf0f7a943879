# codex_shell

A desktop front end that drives `codex` through a resident PowerShell
session. The screens are laid out by a JSON UI definition that can be edited
in place.

- `src/` is the library, verified with Verus: UI command identifiers and
  their dispatch, the UI definition's screens, the editor's selection, the
  runtime state of UI objects, the Codex output stream, the Codex
  `config.toml` edits (through the `regex` crate), the project declarations
  and their list, the choice of the companion tool's record file, fonts,
  the operation history, the pipe listener's command line and session, and
  the text and Windows path operations these rest on.
- `app/` is the program around it: the egui window, files, processes,
  dialogs and the Windows-only operations.
- `tests/` exercises the library on concrete values.
