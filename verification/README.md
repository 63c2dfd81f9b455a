# mgit

A manager for projects made of many git repositories, listed in a
repositories file (`.gitrepos`): it takes snapshots of the repositories under
a directory, fetches them, removes the ones the file does not list, lists
their files, and shows the state of each one.

The library in `src/` holds the logic, with its contracts proved by Verus:

- `text`, `path`: the text and path operations the rest relies on.
- `git`: each git operation as a step function that asks for the next git
  command to run and reads its output.
- `ops`, `clean`, `list_files`, `fetch`, `options`: the decisions of the
  operations (checks, which repositories take part, the entries of a
  snapshot and their order, what cleaning removes).
- `repo_state`, `repo_manager`, `progress`, `panels`: the state of each
  repository, the cache of remote branches, the delayed saving of the
  repositories file, and what the repository list shows.
- `session`, `settings`, `labels`, `windows`, `events`, `dispatch`: the
  open project, its recent files and settings, the selected labels, the
  windows' options, and the options each command runs with.
- `style_message`, `error`: the messages and errors the user reads.
- `system`: the git version check and the update check.

`app/` is a terminal front end: it runs git, walks the disk, reads and
writes the TOML files, and prints the messages in colour.
