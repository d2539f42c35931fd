# skillfile

Search registries of community skills and agents (agentskill.sh, skills.sh,
skillhub.club), rank what they return, and find files in install directories
that no manifest entry accounts for.

- `src/` is the library, verified with Verus: registry answers are parsed from
  JSON into search results, merged, filtered, sorted by popularity and cut to a
  limit; queries are URL-encoded; install-directory listings are scanned for
  untracked entries and sorted by path; terminal buffers are turned into text.
- `app/` holds what touches the outside world: the `ureq` HTTP client, the
  `SKILLHUB_API_KEY` environment variable, directory reading, the `ratatui`
  test terminal, and serialisable copies of the search types.
- `tests/` runs the library against scripted HTTP replies.
