# atomo_vfs

A virtual file system addressed by uris such as `file:///home/x/doc.md` or
`mem://scratch/a`, written in Verus: the functions of the library carry
contracts and are proved to meet them.

## What is where

- `src/` is the library.
  - `uri`, `percent`, `paths`, `text`: uris, their text, and local paths.
  - `error`, `types`, `mime`, `ids`, `chunks`: the values that operations take
    and give back.
  - `tree`, `mem`: the in-memory provider.
  - `local`, `local_list`, `local_files`, `local_write`, `local_copy`: the rules
    of the provider of local files.
  - `provider`, `engine`, `walk`, `copy_one`, `copy`, `moves`: the engine and its
    bulk operations.
  - `ops`, `watch`, `events`: operations in flight, watches, event batches.
  - `ipc`, `request`: the commands and the `vfs` protocol.
  - `*_laws`: what holds of several functions together. Laws of a single module
    stand at its end; each is a public proof function whose name begins with
    `law_`.
- `tests/` runs the library on concrete values.
- `app/` is the asynchronous part: it performs i/o, locks and channels.

## Machines

Nothing in the library waits or does i/o. An operation that alternates
decisions with i/o is a machine: it names the next request and is handed the
answer. Its state has a view with a transition function (`advanced`, `resumed`,
`stepped`), and the executable step is proved to be that function. Laws then
speak of whole runs: a walk finds a tree in preorder, a copy makes each of its
entries, a source is deleted only after its copy went well, a local file is
replaced only by one that was written in full.

## Trust

Calls into other crates stand behind a few items that are believed, not proved;
each says in its comment what is claimed. They are in `text` (one method of
`String`), `percent` (`percent-encoding`), `mime` (`mime_guess`), `paths`
(`std::path`), `ids` (`uuid`) and `ops` (the cancellation token of `tokio-util`).
