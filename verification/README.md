# ring_core

The logic of Ring, a self-hosted knowledge-collaboration server for small
groups, as a library whose behaviour is stated in contracts and proved with
Verus.

- `src/` — the verified library. Each module holds one area of the server:
  uploads and chunking (`upload`), search normalisation (`search`), privacy
  masks (`privacy_filter`), chat prompts and compaction (`chat`), the
  assistant's tools (`super_chat`, `workflow`, `graph`), archives and their git
  plans (`archive`, `archive_flow`, `git_service`, `gitlab`), sessions and live
  connections (`session`, `ws_hub`), credentials (`encryption`, `access`),
  memory and metrics (`memory`, `self_data`), sync bundles (`sync`), blueprints
  (`blueprint`), skills (`skill`), streamed model replies (`llm`), and the
  cache and group documents (`group_work`). Text helpers shared by all live in
  `text`.
- `tests/` — executable tests of the library.
- `app/` — the code around the library that Verus does not check: running
  git, reading and writing files (skills, metrics, imports, uploads), the
  encryption key on disk, JSON encoding, the channels of live connections, and
  the loops that drive a streamed model reply, GitLab requests and automatic
  archiving against the library's decisions.

Calls into outside crates (regex, serde_yaml, base64, aes-gcm, magic-crypt,
rand, url) go through small trusted wrappers whose contracts are
stated next to them. PDF text extraction (pdf-extract) runs in `app/`, where a
panic of the extractor on a malformed document can be caught; the library
decides what its result means.
