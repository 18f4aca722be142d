# novel_cli

A set of tools for downloading novels from the web, normalising their text,
and laying them out as pandoc markdown or as an mdBook, with the rules of the
text proved by Verus.

## Layout

- `src/` — the verified library:
  - `unicode`, `text`, `tables`: character classes, string helpers and the
    conversion tables;
  - `convert`, `novel`: the conversion of text (OpenCC chains, the custom
    punctuation and spacing pass) and of whole novels;
  - `check`, `markdown`, `transform`: the checks and conversions of markdown
    novels and their metadata blocks;
  - `render`, `images`, `names`: the pages of an mdBook and the pandoc
    markdown file, image numbering and file names;
  - `download`, `search`, `novel_info`, `reader`: the decisions of the
    commands that talk to a website and of the terminal reader;
  - `cli`, `config`, `layout`, `line_break`: command-line rules and options,
    directory layouts and line breaks.
- `tests/` — tests of the library on concrete values.
- `app/` — the program: argument parsing, files, the network, the terminal
  and OpenCC, around the library.
