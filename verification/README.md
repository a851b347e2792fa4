# broll-rs

A local workbench for finding, previewing and saving royalty-free video clips
from Pexels, Pixabay, the Internet Archive and YouTube, organised into
projects (each project's clips go to a directory named by its slug).

- `src/` is the library, verified with Verus: project slugs, the reading of
  each source's answers into search results, the request parameters and
  `yt-dlp` command lines, the choice of the file to download, the steps of a
  download, the configuration defaults, the database schema, and the decisions
  and error answers of every HTTP route.
- `app/` is the server around it: HTTP (axum), the database (sqlx/SQLite),
  outgoing requests (reqwest), subprocesses and files, and the JSON forms of
  the library's records.
- `tests/` exercises the library.
