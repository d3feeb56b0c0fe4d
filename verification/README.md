# issue-jumper

Opens the issue of the current Git branch in the browser: the branch name is
matched against issue rules, the remote and the configuration decide the
platform, and the issue URL (or, on GitHub and GitLab, the repository page) is
built and opened. It also installs a Zed task and key binding that run it, and
prints snippets for other editors.

## Layout

- `src/` is the library, verified with Verus. Every decision lives here with
  its contract: command-line parsing, configuration merging and linting, branch
  rules, remote parsing, platform resolution, URL building, the Zed merge plan,
  and the browser command.
- `app/` is the `issue-jumper` program around it: it reads files, runs `git`
  and the browser opener, parses JSON with serde, json5 and serde_json, and
  writes what the library decided.
- `tests/` exercises the library on concrete values.

Regular expressions are compiled and matched by the `regex` crate; the library
calls it through a few trusted wrappers in `src/issue.rs`, whose contracts name
what the crate computes.
