# warp

The logic of the Warp app and of its agent command line, written in Verus with the
behaviour of each function stated in its contract and proved.

- `src/` is the verified library: localized texts and their catalogs (`locale`,
  `catalog`, `template`, `localization`), IAP credentials (`iap`), agent runs and the
  way their errors are reported (`driver_errors`, `agent_config`, `cli_agent_listener`),
  skills and the index of skill files (`skills`, `skill_index`), API keys (`api_keys`),
  repository specs (`repo_spec`), secret storage (`secure_storage`), git status metadata
  and events (`git_status`), the search views' text lookup (`search_localization`), and
  the views that report on them (`banners`, `toast`, `tips`,
  `mcp_dialog`, `tabs`).
  `laws` states properties that relate several functions; `sort`, `text` and `assoc`
  hold the shared pieces.
- `tests/` runs the library on concrete values.
- `app/` is the command line around it: reading files and the environment, running
  `gcloud`, prompting at the terminal, and printing.
