# aiced

A command-line tool that asks a language model to review the files of
configured repositories and proposes line edits, with a verified core.

## Layout

- `src/` — the library, verified with Verus:
  - `text`, `cursor`: character-level helpers and the line cursor the readers share.
  - `analysis_parser`, `stack_recommendation_parser`, `custom_parser`: the readers
    of the text formats the model answers in.
  - `line_change`, `file_change`, `report`: the data those readers produce.
  - `file_modifier`, `batch`, `store`: checking and applying line edits to the
    files of a repository, modelled as a snapshot of paths and texts.
  - `preview`: the tables that show proposed edits.
  - `scan`: which files a scan passes over.
  - `stream`, `providers`: what the providers' streamed answers and failures mean.
  - `errors`, `conversions`, `config`, `helpers`: errors, configuration, prompts.
  - `laws`: properties that hold across operations.
- `tests/` — tests on concrete values.
- `app/` — the program: command line, configuration file, HTTP, file system.
