# lcp_sql_fetch

A verified library for running local SQL scripts on Liferay Cloud (LCP)
environments, and the `lcp-sql-fetch` command line around it.

- `src/` — the library, verified with Verus: settling the project ID, user,
  password and API token (`project`), the guard against data-modifying SQL
  (`safety`), finding the running instance in the shell's listing
  (`instances`), reading the API's project list (`api`), building the shell
  commands and `expect` scripts with their escaping (`scripts`), the download
  and the verdict on a fetch (`fetch`), the error messages (`error`), the
  command-line values (`cli`), and the character-level helpers (`text`,
  `unicode`).
- `app/` — the program: argument parsing, prompts, HTTP, processes and files.
- `tests/` — tests of the library on concrete values.
