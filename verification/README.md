# tedtui

A terminal form for creating and editing Ted todos (Markdown files with YAML
front matter under `~/.ted`), and `tedlist`, a browser over the todos,
backlog, plans and inbox notes.

The logic is a Verus library under `src/`, verified against its contracts:

- `text`, `paths`: strings, lines, decimal numbers, and paths as sequences.
- `filestorage`: the `~/.ted` tree, file names, ids, project files.
- `markdown`, `parser`: writing a todo file and reading it back;
  `readback` proves that what is written reads back as it was, for values
  the reader does not trim, unquote or split into lines, and likewise for
  a new project file.
- `app`, `view`, `theme`: the form's state, its keys, what it shows, and
  the colours of the theme.
- `tedlist`, `browser`, `order`, `highlight`: the browser's stores, sorting,
  search, keys and display helpers.
- `properties`: laws that relate several operations.

`app/` holds what the library leaves to the program: the terminal, the
file system, processes, and JSON. The decisions it acts on, which file to
write and which to remove among them, come from the library; it reads,
writes and draws.

Run `tedtui` with no argument for a new todo, with a `.md` path or a numeric
id to edit one, or with `--json '<json>'` to start from a JSON description.
Started under the name `tedlist`, the program opens the browser.
