# notecli

A command-line note manager whose core is verified with Verus.

- `src/` is the library: the note index (`storage`), the data model
  (`model`), configuration (`config`), themes and output styles (`theme`,
  `output`), note files (`notefile`), dates (`time`), text and numbers
  (`text`, `numeric`), ordering and sorting (`order`, `seqs`), what each
  command decides (`handle::*`), what the interactive prompts show
  (`input`), and properties that hold across operations (`laws`). Every
  function carries a contract that Verus proves; the few calls into chrono,
  regex and std that Verus cannot read are wrapped in small trusted
  functions whose contracts are stated next to them.
- `app/` is the program around it: the command line (clap), files and
  directories, the JSON and TOML formats (serde), colours and tables
  (colored, comfy-table) and the interactive prompts (dialoguer).
- `tests/` exercises the library on concrete values.

Notes live under `./.notecli/`: one Markdown file per note, with its
metadata as JSON front matter, and an `index.json` that caches the metadata
of all notes, their categories and tags.
