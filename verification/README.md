# openrouter_local

A local, OpenAI-compatible gateway that routes chat requests to several
providers (OpenAI-style HTTP services, Gemini over HTTP, and command-line
tools), logs the requests that a provider answered to SQLite and shows the
log on a web dashboard.

- `src/` is the library, verified with Verus: routing and fallback, the
  providers' endpoints and reply handling, stream chunking, token estimates,
  the dashboard's HTML, the request log's SQL filters, paging and retry
  policy, and the background server's pid file and stop/start decisions.
- `app/` is the program around it: HTTP serving, upstream calls, SQLite,
  processes, signals and the file system.
- `tests/` exercises the library.
