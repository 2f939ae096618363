# gitclient_worker

The background work of the Sicompass git client, verified with Verus: the
decisions behind network jobs and the repository watcher.

- `src/` is the library. `ffon` is the tree a job travels as and its binary
  form, `job` a job and its result as bytes, `steps` which git command to run
  next, `network` the single job in flight, `watcher` the stamps of the git
  directories, `text` the line of git's output that a message shows, and `git`
  the plain values they share.
- `app/` runs what the library decides: processes, threads, host tasks, file
  stamps and the clock.
- `tests/` runs the library on concrete values.

The library does no I/O. Where the work alternates with decisions, a function
says what to do next and is called again with what came of it: `run_task` with
the outputs of the steps run so far, `Network::start` and `Network::spawned`
before and after the task is started, `Watcher::take_changed` with the time and
the stamps.

Calls into other code that the proofs take on trust are `serialize_binary` and
`deserialize_binary` of `sicompass_sdk::ffon`, and `String::from_utf8_lossy`.
