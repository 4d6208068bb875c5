# nodeinnet

The logic of the node.in.net desktop client, written in Verus: every
function in `src/` carries a contract that Verus proves, and the laws the
client relies on (what a lookup gives back of a registration, that the
socket redirect fails closed, that version order is a total order, that
the network graph holds exactly the peers it was given, and more) are
public proof functions.

- `src/` is the library. Each module opens with a comment on what it
  covers: text handling and translation catalogs, paths and permissions,
  the file panel and its dialogs, the two-panel file manager and its
  transfers, the registry browser, the remote desktop, the workspace and
  the first-run wizard, the login form, the network graph and page, the
  settings dialog and shared resources, self-update, and the SOCKS5
  redirect of the network library.
- Calls into `serde_json`, `md5`, `uuid` and the standard library that
  Verus does not know are made by small trusted wrappers, each with a doc
  comment saying what its contract claims of the outside function.
- `tests/` runs the library on concrete values.
- `app/` is the command-line front: arguments, environment, files and
  floating-point arithmetic, which the library leaves to it.
