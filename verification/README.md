# termie

The logic of Termie, a small graphical terminal: a command line, a list of the
commands run with their output, a command history walked with the arrow keys,
a bash history file, and a button that asks Gemini to write a command.

- `src/` is the verified library (Verus):
  - `history` — the arrow-key history file: splitting into lines, reading a
    line by number, appending while keeping the 500 most recent lines, and the
    bash history line; with the laws relating them.
  - `terminal` — the terminal state and the step taken on each key, button
    and command outcome.
  - `command` — what a typed command asks for (`cd` or the shell) and the
    outcome of a shell command.
  - `gemini` — the API key, the prompt and the reply.
  - `text` — UTF-8 decoding, Unicode white space, trimming and words.
  - `clock` — the text of a clock reading (`year-MM-DD HH:MM:SS`).
  - `mkdir` — the arguments of the `mkdir` helper program.
- `app/` is the program around it: the window (eframe), the clock, files, processes,
  the environment and the network request.
- `tests/` exercises the library.
