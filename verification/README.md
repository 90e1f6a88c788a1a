# rss_daily

A verified library behind a daily digest of GitHub's trending repositories:
it redacts leaked tokens, filters out repositories recommended before, ranks
the rest, picks each feed category's repositories, writes the day's README
reports and the landing page, builds summaries, Medium posts and CSDN
accounts, and lays out the dated archive. Verus checks every function of
`src/`; the calls into `regex`, `chrono` and a few `std` string functions go
through trusted wrappers whose contracts are stated beside them.

Layout:

- `src/text.rs` – string operations with exact specifications (decimal
  numbers, splitting, searching, replacing, trimming, UTF-8 byte prefixes).
- `src/models.rs` – repositories and summaries, with their views.
- `src/config.rs` – the configuration, its defaults and environment overrides.
- `src/fetcher.rs`, `src/ranking.rs` – redaction, history filtering, growth
  classes and the stable ranking.
- `src/storage.rs` – the archive's layout and the listing of archived dates.
- `src/summary.rs` – rule-based summaries, model prompts and the fallback.
- `src/image.rs`, `src/readme.rs` – card image names and the README reports.
- `src/pipeline.rs`, `src/medium.rs` – category selection, report links,
  feed items, posts and the push platforms.
- `src/dates.rs` – calendar dates through `chrono`.
- `app/` – the program: configuration file, network, browser and files.
- `tests/` – tests of the library on concrete values.

The floating-point trend score is computed in `app/scoring.rs` and handed to
the verified ranking as order-preserving integer keys.
