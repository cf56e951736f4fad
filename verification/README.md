# leadforge

A command-line tool that fetches job postings from the Hacker News API,
concurrently and with retries, and keeps those whose title contains a
keyword (case-insensitively).

The decisions are a library verified with Verus (`src/`):

- `parse` — the timeout option: an unsigned decimal number of seconds, read
  exactly as `u64::from_str` reads it, errors included.
- `text` — character views of strings, lower-casing (`str::to_lowercase`),
  substring search.
- `hn` — the API's items; the order in which item ids are visited (job
  stories newest first, then every older id); the keyword filter; the
  collector that keeps matching postings up to the limit.
- `retry` — which failures are retried, and the exponential backoff with
  jitter between attempts; the number of attempts is bounded.
- `config` — the command line as data, and the command it stands for.

`app/` holds the program around it: argument parsing (clap), the HTTP
requests (reqwest, tokio, futures), JSON (serde) and output.
