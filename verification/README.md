# RepoLens

A local git repository index: it discovers repositories under configured scan roots,
fingerprints them (languages, frameworks, README summary, head commit, size) and stores
them in SQLite with a full-text index, for search from the command line.

The library under `src/` is verified with Verus; every public function states what it
returns in its contract, and the laws that tie functions together are proved there.

- `text`, `paths`, `datetime`, `json`: string, path, date-time and JSON-list text forms.
- `models`: repositories, scan results and configuration.
- `config`: configuration locations, scan-root bookkeeping and `key=value` settings.
- `scanner`: repository discovery from directory walks and the record of a repository.
- `fingerprint`: language ranking, framework detection, README summary and hash.
- `manifest`: the steps taken into parsed `package.json` and `Cargo.toml` documents.
- `scan`: the bookkeeping of a scan.
- `db`, `search`: SQL statements, bound values and the decoding of result rows.
- `display`: tables, detail views, sizes and scan reports.

`app/` is the command-line program: argument parsing, the configuration file, directory
walks, git, SQLite and JSON output, all driving the library. `tests/` exercises the
library, including against a real in-memory SQLite database.
