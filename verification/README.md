# javm

The core of a desktop media library for Japanese adult video: recognising
designations, routing searches to metadata sources, reading their pages,
fusing and scoring scrape results, laying out metadata and artwork beside a
video or in an independent metadata directory, renaming a video and its files
after a title, the download queue and the downloader's output, and the
normalisation of the application settings.

Every function of the library is verified with Verus against a contract over
mathematical models (`Seq`, `Set`, spec functions and views). Calls into the
`scraper`, `regex`, `url` and `serde_json` crates, and the few standard-library functions
that Verus has no specification for, sit behind small trusted wrappers whose
contracts name what they return.

## Layout

- `src/` — the verified library, one module per concern:
  - `text`, `paths`, `seqs` — characters, trimming, splitting, joining, paths.
  - `designation` — designation forms (multi-part, D2Pass, uncensored).
  - `settings`, `sources`, `finder` — settings and their normalisation, sites.
  - `routing`, `scrape` — which sources take part, results, scores, metadata.
  - `html`, `page`, `regexes`, `urls` — reading pages, patterns and URLs.
  - `avsox`, `avsox_api`, `avgood`, `javguru`, `av123`, `subtitle` — sources.
  - `storage`, `artwork`, `assets`, `previews` — where metadata and files go.
  - `download`, `queue`, `task_edit`, `hls` — downloads, their queue, edits
    of a download task, HLS playlists.
  - `scrape_queue`, `records`, `media_write` — the batch scrape queue, what
    is recorded, how the results of a scrape are written.
  - `actor`, `webview` — actor profiles, scripts for the scraping windows.
- `tests/` — tests of the library on concrete values.
- `app/` — file-system and process work around the library.
