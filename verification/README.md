# releasekit

Client-agnostic library for fetching releases from git forges (GitHub,
GitLab, Gitea and Codeberg), written in Verus.

- `src/` is the verified library: parsing forge URLs (`url`), filtering
  asset names (`filter`), the release model (`model`), header maps and the
  `HttpClient` trait (`client`), and for each forge the API URL of a request,
  its authentication headers and the conversion of its release records into
  `Release` values (`platform`). `text` holds the character-level string
  functions they are built on.
- `app/` is the part that talks to the outside: the `Forge` trait whose
  `fetch_releases` sends the request through an `HttpClient` and decodes the
  JSON answer with serde, reading tokens from environment variables, and the
  serde and `Display` forms of the library's types.
- `tests/` runs the library on concrete values.
