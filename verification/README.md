# git_opendal

Setup and inspection logic for Git remotes that live in OpenDAL storage
(`opendal://<backend>/[<bucket>/]<path>`), verified with Verus.

- `src/` — the verified library:
  - `text.rs` — trimming, splitting, words, lines and `u32` numerals on characters;
  - `backend.rs`, `remote.rs`, `error.rs` — backends, remote descriptions, their URLs,
    and why a description or URL is refused (with the URL round-trip law and
    the shape of every remote read from a URL);
  - `git.rs` — reading `git --version` and `git ls-remote` output;
  - `commands.rs` — the decisions of the commands and their error texts;
  - `flow.rs`, `bootstrap.rs`, `setup.rs`, `status.rs` — the commands that
    alternate Git calls and decisions, as state machines with their laws;
  - `params.rs`, `operator.rs` — a remote's configuration and the OpenDAL
    operators for Backblaze B2, S3 and WebDAV, with a model of what each
    OpenDAL builder holds and of when OpenDAL accepts it (for S3, where its
    answer does not depend on the process environment).
- `app/main.rs` — the `git-opendal` command line: argument parsing, running Git,
  the file system, the environment, and printing (text or JSON).
- `tests/` — tests of the library.
