# launcher

The core of a Minecraft launcher — version and library resolution, platform
rules, argument templating, the on-disk layout, download planning and retry
decisions, Java runtime selection, the instance model — written in Verus and
verified against its contracts.

## Layout

- `src/` — the verified library, one module per concern:
  - `text`, `paths`, `ids`: string, path and identifier building blocks
    (splitting, trimming, replacing, `Path::join` semantics, UUID text forms);
  - `os_match`: Mojang `rules` arrays and feature flags;
  - `version_detail`: the version JSON model and `${placeholder}` expansion;
  - `libraries`: Maven paths, classpath/natives resolution, de-duplication;
  - `assets`: content-addressed asset downloads;
  - `manifest`, `fabric`: the version manifest and Fabric profile merging;
  - `java`: `java -version` parsing, executables, managed runtime plans;
  - `launch`: accounts, placeholder table, command lines, classpath,
    `options.txt`;
  - `downloads`: download tasks and every decision around a transfer;
  - `database`, `commands`: the instance model and the app's command logic;
  - `ext`: the calls into other crates (regex, MD5, SHA-1, UUID, RFC 3339,
    zip archives),
    each behind a wrapper whose contract names its result.
- `tests/` — tests of the library's public API.
- `app/` — a command-line program around the library: SQLite storage, HTTP,
  the concurrent downloader, file writes, process spawning, and the
  JSON shapes of the documents it reads and writes.

Laws of the library (de-duplication, asset task uniqueness, per-instance
path isolation, encoding round trips, update semantics, idempotent
preferences, back-off bounds, rule evaluation) are public proof functions
next to the code they speak about.
