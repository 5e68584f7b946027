# ghdepup

Updates dependency versions from the tags that projects publish on GitHub.
Configuration files declare, for each dependency `NAME`, the keys
`NAME_GH_PROJECT`, `NAME_GH_TAG_PREFIX`, `NAME_GH_VERSION_REQ` and
`NAME_GH_VERSION`; the program writes `NAME_GH_VERSION="x.y.z"` for the best
version found.

Layout:

- `src/` is the library, verified with Verus:
  - `depkey.rs`: the kinds of configuration entries and their key names;
  - `text.rs`: string helpers (ASCII case, prefixes, decimal text, joining);
  - `version.rs`: semantic versions and requirements, backed by `semver`;
  - `table.rs`: reading dependencies from a TOML table, backed by `toml`;
  - `dep.rs`: a dependency, its versions from tags, its best version, and
    the text written for it;
  - `tags.rs`: tag names from a GitHub API response, backed by `serde_json`;
  - `config.rs`: the command line and the configuration files' contents;
  - `update.rs`: the steps of a run that decide rather than do I/O;
  - `request.rs`: the request for a project's tags, built with `hyper`;
  - `laws.rs`: properties that relate several of the functions above.
- `app/main.rs` is the program: files, environment, sending requests.
- `tests/` runs the library on concrete values.
