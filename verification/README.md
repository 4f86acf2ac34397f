# wasmdome

The verified core of *Assembly Mechs: Beyond WasmDome*, a game in which
WebAssembly mechs fight on a grid, one batch of commands per turn.

`src/` is the library, written in Verus and proved against its contracts:

- `geometry`, `registers`, `commands`, `events`, `radar`, `state`: the board,
  the mechs' registers, their commands, the events of a match, radar scans and
  the state of a match.
- `engine`: the match aggregate. Commands become events; events applied to a
  state give the next state. `laws` proves what every event keeps, that the
  events of a command always apply, and other properties across functions.
- `turns`: processing a mech's turn, command by command; `coordinator`: creating
  matches, spawning mechs, asking for turns.
- `leaderboard`: scores computed from match events.
- `store`, `arena`, `scheduler`, `historian`, `hosting`, `cli`, `creds`: the
  decisions of the services (routing, keys, subjects, configurations, tokens).
- `sdk` and `npc`: the instrument panel a mech sees, and the arena's own mechs.

`app/` holds the services themselves (actors, the engine provider, hosts, the
command line, the credentials minter): they read and write stores and messages
and act on what the library decides. `tests/` exercises the library.
