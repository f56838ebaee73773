# tama

A terminal pet that doubles as a small assistant for scripts: programs talk
to it through a named pipe or a local HTTP port, and it shows their
messages, asks their questions and writes the answers back.

Everything a person reads is in pt-BR, or in English when the first locale
variable that is set among `TAMA_LANG`, `LC_ALL` and `LANG` starts with
`en` (`i18n::detect`). The wire (command-line flags, JSON keys, answers such
as `ignored`) stays English; `tama lembrar "texto" --em 10m` is accepted as
another spelling of `tama remind "text" --in 10m`.

## Layout

- `src/` — the library, verified with Verus. Everything the program decides
  lives here, each function with its contract:
  - the pet (`pet`, `species`, `expression`, `game`) and its saved state
    (`state`, `json`, `text`, `i18n`);
  - the wire formats: pipe messages (`assistant`), the command line (`cli`),
    HTTP requests (`http`), reminders and progress (`messages`), the
    pomodoro clock (`pomo`, `bigtime`), the inbox of messages and questions
    (`inbox`, `answer`);
  - the running app as a state machine (`session`): what every message,
    tick and key does, stated exactly, with the effects left for the program
    to carry out (`Effects`);
  - the screens (`layout`, `panel`, `line`, `widgets`, `home`, `card`,
    `assistant_view`, `pomo_view`, `setup`, `frame`, `render`, `screen`,
    `clock`).
- `app/` — the program around it: the terminal, the clock, files, the pipe,
  the HTTP server and the main loop, which carries out each step's effects.
- `tests/` — tests of the library on concrete values.

Laws of the library are public proof functions named `law_*`; for example
`session::law_question_interrupts_and_returns`,
`messages::law_progress_per_source`, `state::law_pet_save_round_trip`,
`state::law_schedule_round_trip` and `species::law_art_footprint`.
