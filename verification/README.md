# favetto

The verified core of favetto, an orchestrator that runs declarative tasks by handing them
to external coding agents, each in a terminal of its own. The library is written in Verus:
what a function returns or changes is stated in its contract and proved.

- `src/` is the library. `agents/` knows the agents: which command a launch runs, how the
  output of a run becomes normalized events and a summary, what a screen that waits for its
  user looks like, and what the daemon keeps of each session. Around it stand the receiver of
  hooks (`agent_hooks`), the watcher of runs (`attention`), the watcher of the task catalog
  (`catalog_watch`), chat sessions (`chat`), the command line (`cli`) and the client's
  bookkeeping of requests (`client`). `text`, `lines`, `json`, `table`, `paths`, `ids`,
  `config` and `model` are what these are built on.
- Proof functions whose names begin with `law_` state what holds of every input, of several
  calls, or of every sequence of events.
- Calls into other crates (`serde_json`, `chrono`, `uuid`, `vt100`) and the few calls into
  the standard library that need it stand behind small functions whose contracts are
  believed; a comment at each says what is claimed of the call.
- `tests/` runs the library on concrete values.
- `app/` is the daemon's side: terminals, processes, sockets, files and clocks.
