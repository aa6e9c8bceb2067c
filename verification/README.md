# stemcell_tui

The verified core of a terminal chat client for an AI agent. Everything the
client decides without touching the terminal, the network or the disk lives
in `src/` and is checked by Verus against its `requires`/`ensures` contracts:

- editing the input line (chars, words, lines, soft-wrapped rows, pasted
  text, leaked mouse reports), its history and the prompt-history file;
- the key handling of the chat, the approval prompts and menus, the skills,
  export, knowledge-graph review and mission-control dialogs, the sessions
  screen and the file and emoji pickers;
- slash commands: autocomplete ranking and what a submitted command does;
- the text formats of stored messages: tool-call markers, reasoning blocks,
  XML tool calls, image markers and JSON scanning;
- the live state of agent turns in focused and background sessions, the
  per-session bookkeeping when turns end, the life of approval requests, the
  tool-call group of a running turn, and the wording of errors and reports;
- the model selector's key decisions and the setup wizard's saved-step notes.

Laws that relate several operations (round trips, invariants kept by every
key) are stated as `pub proof fn law_*` next to the functions they speak of.

`app/` holds the thin layer Verus does not see: crossterm key conversion,
JSON conversion, file and clipboard access, and the floating-point streaming
rate. `tests/` runs the library on concrete values.
