# hyperforge

Multi-forge repository management: an organization's repos kept in step
across GitHub, Codeberg and GitLab, and the packages of a workspace built,
compared against their registries and published in dependency order.

## Layout

- `src/` is the library, verified with Verus. Every function states what
  it returns in its `ensures`, over spec functions and views of the
  library's types; the laws that relate several functions stand as public
  `proof fn`s beside them (publish tiers and the dependency graph, version
  order, visibility parsing, the forge-set queries, the sync selectors).
  - `types/`, `storage/`, `services/`: forges, repos, org and token
    configuration, the symmetric sync diff.
  - `v5/`: the org hub, forge wire formats, build and publish
    (`v5/build/`: manifests, version bumps, registry comparison, publish
    tiers, patch scans, release commands), repo operations (`v5/ops/`).
  - `text.rs`, `order.rs`, `assoc.rs`, `doc.rs`: strings, orderings,
    association lists, and parsed TOML/JSON documents.
- Calls into outside crates (`toml`, `serde_json`, `toml_edit`,
  `urlencoding`) and a few std string functions stand behind trusted
  wrappers whose doc comments say what their contracts claim.
- `app/` is the program around the library: file and network I/O, git,
  HTTP with the forges and registries, and the loops that carry out the
  library's decisions.
- `tests/` runs the library on concrete values.
