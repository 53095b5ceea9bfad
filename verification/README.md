# apkdl

A downloader for Android apps that tries Google Play, APKMirror and APKPure in turn,
with a command line and a terminal interface.

- `src/` is the library, checked by Verus: reading search results and version lists out of
  store pages, choosing the links and files to download, planning what to fetch from Google
  Play, choosing the base and split APKs of a bundle, the terminal interface as a state
  machine, the choices of the command line, and which source's or link's outcome decides a
  download. Page patterns go through `regex` and `scraper`, and the Google Play client's
  JSON output through `serde_json`; the contracts name their results.
- `app/` is the program: HTTP, files, external tools (`python3`, `java`, `apktool`,
  `apksigner`), argument parsing and drawing the terminal.
- `tests/` exercises the library on concrete pages and states.
