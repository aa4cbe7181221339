# alcatraz-guest

The guest-side protocol and policy library of a four-role isolation layout
(VibeKanban, Codex, Git, Build), verified with Verus.

- `src/` is the verified library: the authorization matrix (`policy`), the
  bounded JSON Lines record format (`frame`, `json`, `digest`) and its
  bounded line reader (`line`), the Git and
  Build request policies (`requests`), replay detection (`replay`), path
  containment (`paths`), the decisions of the Git and Build executors
  (`executors`), and the VibeKanban stand-in's command line (`cli`).
- `app/` holds the programs around it: the two executors, the two-socket demo
  and the stand-in, with their sockets, processes, and serde forms of the
  records.
- `tests/` runs the library on concrete values.
