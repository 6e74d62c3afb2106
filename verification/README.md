# Tandem

A human-controlled coding assistant controller: an agent builds a proposal in a private
shadow working tree, the human tours and refines it, and only `/apply` and `/revert`
write the real working tree.

- `src/` is the verified library. Controller operations are functions of the controller's
  state and a `World` of answers (stored Git trees, working-tree reads, text merges,
  diffs, and the writes already done). An operation that lacks an answer stops with
  `Fault::Need` and leaves the state as it was; the caller obtains the answer, records
  it, and runs the operation again. The contracts state each operation's result over
  these answers. `Controller::turn_for` decides what each agent turn may do; the caller
  only hands that turn to the agent.
- `app/` is the `tandem` program: Git and file I/O that answers the operations, the
  socket server, the editor transport, the Codex backend, and the JSON forms of the
  protocol.
- `tests/` exercises the library, with an in-memory repository standing in for Git.
